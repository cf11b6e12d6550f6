//! The contact book: the public keys a user has looked up, kept by name in
//! name order.

use vstd::prelude::*;
use crate::protocol::{PublicKeyEntry, KeyRecordView, valid_username, is_valid_username};
use crate::text::{chars_lt, chars_of, compare_chars, TextOrder, lemma_chars_lt_irreflexive,
    lemma_chars_lt_total, lemma_chars_lt_transitive};

verus! {

/// Why a contact book could not be opened.
#[derive(Clone, Copy, Debug, PartialEq, Eq, Structural)]
pub enum ContactsError {
    /// The owner's username breaks the username rules.
    InvalidUsername,
}

/// Names in strictly increasing order (so each name occurs once).
pub open spec fn strictly_sorted(names: Seq<Seq<char>>) -> bool {
    forall|i: int, j: int| 0 <= i < j < names.len() ==> chars_lt(#[trigger] names[i], #[trigger] names[j])
}

/// The map that a list of (name, record) pairs with distinct names stands for.
pub open spec fn pairs_to_map(pairs: Seq<(Seq<char>, KeyRecordView)>) -> Map<Seq<char>, KeyRecordView> {
    Map::new(
        |k: Seq<char>| exists|i: int| 0 <= i < pairs.len() && #[trigger] pairs[i].0 == k,
        |k: Seq<char>| pairs[index_of_name(pairs, k)].1,
    )
}

/// An index at which `k` is stored, when there is one.
pub open spec fn index_of_name(pairs: Seq<(Seq<char>, KeyRecordView)>, k: Seq<char>) -> int {
    choose|i: int| 0 <= i < pairs.len() && #[trigger] pairs[i].0 == k
}

/// The names of a list of pairs.
pub open spec fn pair_names(pairs: Seq<(Seq<char>, KeyRecordView)>) -> Seq<Seq<char>> {
    pairs.map_values(|p: (Seq<char>, KeyRecordView)| p.0)
}

/// In a list sorted by name, the record stored under the name at `i` is the
/// one at `i`.
proof fn lemma_lookup(pairs: Seq<(Seq<char>, KeyRecordView)>, i: int)
    requires
        strictly_sorted(pair_names(pairs)),
        0 <= i < pairs.len(),
    ensures
        pairs_to_map(pairs).dom().contains(pairs[i].0),
        pairs_to_map(pairs)[pairs[i].0] == pairs[i].1,
{
    let k = pairs[i].0;
    assert(pairs[i].0 == k);
    let j = index_of_name(pairs, k);
    assert(0 <= j < pairs.len() && pairs[j].0 == k);
    if j != i {
        let names = pair_names(pairs);
        assert(names[i] == k && names[j] == k);
        lemma_chars_lt_irreflexive(k);
        if j < i {
            assert(chars_lt(names[j], names[i]));
        } else {
            assert(chars_lt(names[i], names[j]));
        }
    }
}

/// The map that results from storing `records` one after the other, a later
/// record replacing an earlier one of the same name.
pub open spec fn map_of_records(records: Seq<(Seq<char>, KeyRecordView)>) -> Map<Seq<char>, KeyRecordView>
    decreases records.len(),
{
    if records.len() == 0 {
        Map::empty()
    } else {
        map_of_records(records.drop_last()).insert(records.last().0, records.last().1)
    }
}

/// The contacts a saved book holds (none when nothing was saved).
pub open spec fn saved_map(saved: Option<Vec<(String, PublicKeyEntry)>>) -> Map<Seq<char>, KeyRecordView> {
    match saved {
        Some(v) => map_of_records(v@.map_values(|p: (String, PublicKeyEntry)| (p.0@, p.1@))),
        None => Map::empty(),
    }
}

/// In a list sorted by name, different indices carry different names.
proof fn lemma_distinct(pairs: Seq<(Seq<char>, KeyRecordView)>, a: int, b: int)
    requires
        strictly_sorted(pair_names(pairs)),
        0 <= a < pairs.len(),
        0 <= b < pairs.len(),
        a != b,
    ensures
        pairs[a].0 != pairs[b].0,
{
    let names = pair_names(pairs);
    lemma_chars_lt_irreflexive(pairs[a].0);
    if a < b {
        assert(chars_lt(names[a], names[b]));
    } else {
        assert(chars_lt(names[b], names[a]));
    }
}

/// A name that no pair carries is not in the map.
proof fn lemma_absent(pairs: Seq<(Seq<char>, KeyRecordView)>, k: Seq<char>)
    requires
        forall|i: int| 0 <= i < pairs.len() ==> #[trigger] pairs[i].0 != k,
    ensures
        !pairs_to_map(pairs).dom().contains(k),
{
}

/// Storing the pairs of a list sorted by name one after the other gives the
/// map the list stands for.
proof fn lemma_records_map(pairs: Seq<(Seq<char>, KeyRecordView)>)
    requires
        strictly_sorted(pair_names(pairs)),
    ensures
        map_of_records(pairs) == pairs_to_map(pairs),
    decreases pairs.len(),
{
    if pairs.len() == 0 {
        assert(pairs_to_map(pairs) =~= Map::<Seq<char>, KeyRecordView>::empty());
    } else {
        let front = pairs.drop_last();
        let n = pairs.len() - 1;
        assert(pair_names(front) =~= pair_names(pairs).drop_last());
        lemma_records_map(front);
        let k = pairs[n].0;
        let m = pairs_to_map(pairs);
        let t = pairs_to_map(front).insert(k, pairs[n].1);
        assert forall|q: Seq<char>| #[trigger] m.dom().contains(q) <==> t.dom().contains(q) by {
            if m.dom().contains(q) && q != k {
                let j = choose|j: int| 0 <= j < pairs.len() && #[trigger] pairs[j].0 == q;
                assert(front[j].0 == q);
            }
            if t.dom().contains(q) {
                if q == k {
                    assert(pairs[n].0 == q);
                } else {
                    let j = choose|j: int| 0 <= j < front.len() && #[trigger] front[j].0 == q;
                    assert(pairs[j].0 == q);
                }
            }
        }
        assert forall|q: Seq<char>| #[trigger] m.dom().contains(q) implies m[q] == t[q] by {
            let j = choose|j: int| 0 <= j < pairs.len() && #[trigger] pairs[j].0 == q;
            lemma_lookup(pairs, j);
            if j < n {
                lemma_lookup(front, j);
                lemma_distinct(pairs, j, n);
            }
        }
        assert(m =~= t);
    }
}

/// Two name lists, each in strictly increasing order, that hold the same
/// names are the same list.
proof fn lemma_sorted_same_names(a: Seq<Seq<char>>, b: Seq<Seq<char>>)
    requires
        strictly_sorted(a),
        strictly_sorted(b),
        forall|x: Seq<char>| a.contains(x) <==> b.contains(x),
    ensures
        a == b,
    decreases a.len(),
{
    if a.len() == 0 {
        if b.len() > 0 {
            assert(b.contains(b[0]));
        }
        assert(a =~= b);
    } else {
        assert(a.contains(a[0]));
        assert(b.contains(a[0]));
        assert(b.contains(b[0]));
        assert(a.contains(b[0]));
        let i = choose|i: int| 0 <= i < a.len() && a[i] == b[0];
        let j = choose|j: int| 0 <= j < b.len() && b[j] == a[0];
        lemma_chars_lt_irreflexive(a[0]);
        lemma_chars_lt_irreflexive(b[0]);
        if i > 0 {
            assert(chars_lt(a[0], a[i]));
            if j > 0 {
                assert(chars_lt(b[0], b[j]));
                lemma_chars_lt_transitive(a[0], b[0], a[0]);
            }
        } else if j > 0 {
            assert(chars_lt(b[0], b[j]));
        }
        assert(a[0] == b[0]);
        let a1 = a.drop_first();
        let b1 = b.drop_first();
        assert forall|x: Seq<char>| a1.contains(x) <==> b1.contains(x) by {
            if a1.contains(x) {
                let k = choose|k: int| 0 <= k < a1.len() && a1[k] == x;
                assert(a[k + 1] == x);
                assert(chars_lt(a[0], a[k + 1]));
                lemma_chars_lt_irreflexive(x);
                assert(b.contains(x));
                let l = choose|l: int| 0 <= l < b.len() && b[l] == x;
                assert(l != 0);
                assert(b1[l - 1] == x);
            }
            if b1.contains(x) {
                let k = choose|k: int| 0 <= k < b1.len() && b1[k] == x;
                assert(b[k + 1] == x);
                assert(chars_lt(b[0], b[k + 1]));
                lemma_chars_lt_irreflexive(x);
                assert(a.contains(x));
                let l = choose|l: int| 0 <= l < a.len() && a[l] == x;
                assert(l != 0);
                assert(a1[l - 1] == x);
            }
        }
        assert forall|p: int, q: int| 0 <= p < q < a1.len() implies chars_lt(#[trigger] a1[p], #[trigger] a1[q]) by {
            assert(chars_lt(a[p + 1], a[q + 1]));
        }
        assert forall|p: int, q: int| 0 <= p < q < b1.len() implies chars_lt(#[trigger] b1[p], #[trigger] b1[q]) by {
            assert(chars_lt(b[p + 1], b[q + 1]));
        }
        lemma_sorted_same_names(a1, b1);
        assert(a.len() == b.len());
        assert forall|k: int| 0 <= k < a.len() implies a[k] == b[k] by {
            if k > 0 {
                assert(a[k] == a1[k - 1]);
                assert(b[k] == b1[k - 1]);
            }
        }
        assert(a =~= b);
    }
}

#[derive(Debug)]
pub struct ContactBook {
    contacts: Vec<(String, PublicKeyEntry)>,
}

impl ContactBook {
    /// The stored pairs, as texts.
    pub closed spec fn pairs(&self) -> Seq<(Seq<char>, KeyRecordView)> {
        self.contacts@.map_values(|p: (String, PublicKeyEntry)| (p.0@, p.1@))
    }

    /// The contact names in the order the book lists them.
    pub closed spec fn names_in_order(&self) -> Seq<Seq<char>> {
        pair_names(self.pairs())
    }

    #[verifier::type_invariant]
    closed spec fn names_sorted(&self) -> bool {
        strictly_sorted(self.names_in_order())
    }

    /// An empty contact book.
    pub fn new() -> (r: Self)
        ensures
            r@ == Map::<Seq<char>, KeyRecordView>::empty(),
            r.names_in_order() == Seq::<Seq<char>>::empty(),
    {
        let r = ContactBook { contacts: Vec::new() };
        assert(r@ =~= Map::<Seq<char>, KeyRecordView>::empty());
        assert(r.names_in_order() =~= Seq::<Seq<char>>::empty());
        r
    }

    /// The record stored under `name` sits at the index where `name` is listed.
    proof fn lemma_listed(&self, name: Seq<char>)
        requires
            strictly_sorted(self.names_in_order()),
        ensures
            self@.contains_key(name) <==> self.names_in_order().contains(name),
    {
        let p = self.pairs();
        if self@.contains_key(name) {
            let i = choose|i: int| 0 <= i < p.len() && #[trigger] p[i].0 == name;
            assert(self.names_in_order()[i] == name);
        }
        if self.names_in_order().contains(name) {
            let i = choose|i: int|
                0 <= i < self.names_in_order().len() && self.names_in_order()[i] == name;
            assert(p[i].0 == name);
        }
    }

    /// The record stored under `username`, if any.
    pub fn get(&self, username: &str) -> (r: Option<&PublicKeyEntry>)
        ensures
            match r {
                Some(e) => self@.contains_key(username@) && e@ == self@[username@],
                None => !self@.contains_key(username@),
            },
    {
        proof {
            use_type_invariant(self);
        }
        let ghost p = self.pairs();
        let wanted = chars_of(username);
        let mut i: usize = 0;
        while i < self.contacts.len()
            invariant
                i <= self.contacts@.len(),
                p == self.pairs(),
                p.len() == self.contacts@.len(),
                wanted@ == username@,
                strictly_sorted(pair_names(p)),
                forall|j: int| 0 <= j < i ==> #[trigger] p[j].0 != username@,
            decreases self.contacts@.len() - i,
        {
            let name = chars_of(self.contacts[i].0.as_str());
            assert(name@ == p[i as int].0);
            if compare_chars(&name, &wanted) == TextOrder::Same {
                proof {
                    lemma_lookup(p, i as int);
                }
                return Some(&self.contacts[i].1);
            }
            i += 1;
        }
        proof {
            lemma_absent(p, username@);
        }
        None
    }

    /// The contact names in increasing order. Each name the book holds a
    /// record for is listed exactly once.
    pub fn names(&self) -> (r: Vec<&str>)
        ensures
            r@.len() == self.names_in_order().len(),
            forall|i: int| 0 <= i < r@.len() ==> #[trigger] r@[i]@ == self.names_in_order()[i],
            strictly_sorted(self.names_in_order()),
            forall|name: Seq<char>|
                #[trigger] self@.contains_key(name) <==> self.names_in_order().contains(name),
    {
        proof {
            use_type_invariant(self);
        }
        let ghost p = self.pairs();
        let mut out: Vec<&str> = Vec::new();
        let mut i: usize = 0;
        while i < self.contacts.len()
            invariant
                i <= self.contacts@.len(),
                p == self.pairs(),
                p.len() == self.contacts@.len(),
                out@.len() == i,
                forall|j: int| 0 <= j < i ==> #[trigger] out@[j]@ == pair_names(p)[j],
            decreases self.contacts@.len() - i,
        {
            out.push(self.contacts[i].0.as_str());
            i += 1;
        }
        assert forall|name: Seq<char>|
            #[trigger] self@.contains_key(name) <==> self.names_in_order().contains(name) by {
            self.lemma_listed(name);
        }
        out
    }

    /// The records the book saves, in name order. Stored one after the other
    /// (as [`ContactBook::from_records`] and [`ContactBook::load_or_create`]
    /// read a saved book) they give this book's contacts again.
    pub fn records(&self) -> (r: Vec<(String, PublicKeyEntry)>)
        ensures
            r@.map_values(|p: (String, PublicKeyEntry)| (p.0@, p.1@)) == self.pairs(),
            map_of_records(r@.map_values(|p: (String, PublicKeyEntry)| (p.0@, p.1@))) == self@,
    {
        proof {
            use_type_invariant(self);
        }
        let ghost p = self.pairs();
        let mut out: Vec<(String, PublicKeyEntry)> = Vec::new();
        let mut i: usize = 0;
        while i < self.contacts.len()
            invariant
                i <= self.contacts@.len(),
                p == self.pairs(),
                p.len() == self.contacts@.len(),
                out@.len() == i,
                forall|j: int| 0 <= j < i ==> (#[trigger] out@[j]).0@ == p[j].0 && out@[j].1@ == p[j].1,
            decreases self.contacts@.len() - i,
        {
            let name = self.contacts[i].0.clone();
            let entry = self.contacts[i].1.copied();
            out.push((name, entry));
            i += 1;
        }
        assert(out@.map_values(|p: (String, PublicKeyEntry)| (p.0@, p.1@)) =~= p);
        proof {
            lemma_records_map(p);
        }
        out
    }

    /// Two contact books that hold the same contacts list their names in the
    /// same order; so a book read back from its saved records lists the same
    /// names as the book that saved them.
    pub proof fn lemma_same_contacts_same_listing(a: ContactBook, b: ContactBook)
        requires
            a@ == b@,
            strictly_sorted(a.names_in_order()),
            strictly_sorted(b.names_in_order()),
        ensures
            a.names_in_order() == b.names_in_order(),
    {
        assert forall|x: Seq<char>|
            a.names_in_order().contains(x) <==> b.names_in_order().contains(x) by {
            a.lemma_listed(x);
            b.lemma_listed(x);
        }
        lemma_sorted_same_names(a.names_in_order(), b.names_in_order());
    }

    /// The contact book of `owner_username`: the records read from its saved
    /// file when there is one (stored one after the other, so a later record
    /// of the same name wins), else an empty book.
    pub fn load_or_create(
        owner_username: &str,
        saved: Option<Vec<(String, PublicKeyEntry)>>,
    ) -> (r: Result<Self, ContactsError>)
        ensures
            !valid_username(owner_username@) ==> r == Err::<Self, ContactsError>(
                ContactsError::InvalidUsername,
            ),
            valid_username(owner_username@) ==> (r matches Ok(book) && book@ == saved_map(saved)),
    {
        if !is_valid_username(owner_username) {
            return Err(ContactsError::InvalidUsername);
        }
        match saved {
            None => Ok(Self::new()),
            Some(records) => Ok(Self::from_records(records)),
        }
    }

    /// A book holding `records`, stored one after the other.
    pub fn from_records(records: Vec<(String, PublicKeyEntry)>) -> (r: Self)
        ensures
            r@ == map_of_records(records@.map_values(|p: (String, PublicKeyEntry)| (p.0@, p.1@))),
    {
        let ghost all = records@.map_values(|p: (String, PublicKeyEntry)| (p.0@, p.1@));
        let mut book = Self::new();
        for pair in it: records
            invariant
                all == it.seq().map_values(|p: (String, PublicKeyEntry)| (p.0@, p.1@)),
                book@ == map_of_records(all.take(it.index() as int)),
        {
            let ghost before = all.take(it.index() as int);
            let (key, entry) = pair;
            book.insert_named(key, entry);
            assert(all.take(it.index() + 1).drop_last() =~= before);
        }
        assert(all.take(all.len() as int) =~= all);
        book
    }

    /// Stores `entry` under its username, replacing any record of that name.
    pub fn add(&mut self, entry: PublicKeyEntry)
        ensures
            final(self)@ == old(self)@.insert(entry.username@, entry@),
    {
        let key = entry.username.clone();
        self.insert_named(key, entry);
    }

    /// Stores `entry` under `key`, replacing any record of that name.
    fn insert_named(&mut self, key: String, entry: PublicKeyEntry)
        ensures
            final(self)@ == old(self)@.insert(key@, entry@),
    {
        proof {
            use_type_invariant(&*self);
        }
        let ghost old_pairs = self.pairs();
        let mut contacts: Vec<(String, PublicKeyEntry)> = Vec::new();
        std::mem::swap(&mut contacts, &mut self.contacts);
        assert(contacts@.map_values(|p: (String, PublicKeyEntry)| (p.0@, p.1@)) == old_pairs);
        let key_chars = chars_of(key.as_str());
        let ghost k = key@;
        let ghost e = entry@;
        let mut i: usize = 0;
        while i < contacts.len()
            invariant
                i <= contacts@.len(),
                k == key@,
                key_chars@ == k,
                e == entry@,
                contacts@.map_values(|p: (String, PublicKeyEntry)| (p.0@, p.1@)) == old_pairs,
                strictly_sorted(pair_names(old_pairs)),
                old(self)@ == pairs_to_map(old_pairs),
                forall|j: int| 0 <= j < i ==> chars_lt(#[trigger] old_pairs[j].0, k),
            decreases contacts@.len() - i,
        {
            let name_chars = chars_of(contacts[i].0.as_str());
            assert(name_chars@ == old_pairs[i as int].0);
            let order = compare_chars(&name_chars, &key_chars);
            match order {
                TextOrder::Same => {
                    contacts.set(i, (key, entry));
                    let ghost new_pairs = old_pairs.update(i as int, (k, e));
                    assert(contacts@.map_values(|p: (String, PublicKeyEntry)| (p.0@, p.1@))
                        =~= new_pairs);
                    assert(pair_names(new_pairs) =~= pair_names(old_pairs));
                    proof {
                        Self::lemma_replace(old_pairs, i as int, k, e);
                    }
                    self.contacts = contacts;
                    return;
                },
                TextOrder::After => {
                    contacts.insert(i, (key, entry));
                    let ghost new_pairs = old_pairs.insert(i as int, (k, e));
                    assert(contacts@.map_values(|p: (String, PublicKeyEntry)| (p.0@, p.1@))
                        =~= new_pairs);
                    proof {
                        Self::lemma_insert(old_pairs, i as int, k, e);
                    }
                    self.contacts = contacts;
                    return;
                },
                TextOrder::Before => {},
            }
            i += 1;
        }
        contacts.push((key, entry));
        let ghost new_pairs = old_pairs.insert(old_pairs.len() as int, (k, e));
        assert(contacts@.map_values(|p: (String, PublicKeyEntry)| (p.0@, p.1@)) =~= new_pairs);
        proof {
            Self::lemma_insert(old_pairs, old_pairs.len() as int, k, e);
        }
        self.contacts = contacts;
    }

    /// Replacing the record at the index that holds `k` keeps the order and
    /// updates the map at `k`.
    proof fn lemma_replace(
        old_pairs: Seq<(Seq<char>, KeyRecordView)>,
        i: int,
        k: Seq<char>,
        e: KeyRecordView,
    )
        requires
            strictly_sorted(pair_names(old_pairs)),
            0 <= i < old_pairs.len(),
            old_pairs[i].0 == k,
        ensures
            strictly_sorted(pair_names(old_pairs.update(i, (k, e)))),
            pairs_to_map(old_pairs.update(i, (k, e))) == pairs_to_map(old_pairs).insert(k, e),
    {
        let new_pairs = old_pairs.update(i, (k, e));
        assert(pair_names(new_pairs) =~= pair_names(old_pairs));
        let m = pairs_to_map(new_pairs);
        let t = pairs_to_map(old_pairs).insert(k, e);
        assert forall|q: Seq<char>| #[trigger] m.dom().contains(q) <==> t.dom().contains(q) by {
            if m.dom().contains(q) {
                let j = choose|j: int| 0 <= j < new_pairs.len() && #[trigger] new_pairs[j].0 == q;
                if j != i {
                    assert(old_pairs[j].0 == q);
                }
            }
            if t.dom().contains(q) && q != k {
                let j = choose|j: int| 0 <= j < old_pairs.len() && #[trigger] old_pairs[j].0 == q;
                assert(new_pairs[j].0 == q);
            }
            if q == k {
                assert(new_pairs[i].0 == q);
            }
        }
        assert forall|q: Seq<char>| #[trigger] m.dom().contains(q) implies m[q] == t[q] by {
            let j = choose|j: int| 0 <= j < new_pairs.len() && #[trigger] new_pairs[j].0 == q;
            lemma_lookup(new_pairs, j);
            if j != i {
                lemma_lookup(old_pairs, j);
                lemma_distinct(old_pairs, i, j);
            }
        }
        assert(m =~= t);
    }

    /// Inserting `k` at its place in the order keeps the order and adds `k`
    /// to the map.
    proof fn lemma_insert(
        old_pairs: Seq<(Seq<char>, KeyRecordView)>,
        i: int,
        k: Seq<char>,
        e: KeyRecordView,
    )
        requires
            strictly_sorted(pair_names(old_pairs)),
            0 <= i <= old_pairs.len(),
            forall|j: int| 0 <= j < i ==> chars_lt(#[trigger] old_pairs[j].0, k),
            i < old_pairs.len() ==> chars_lt(k, old_pairs[i].0),
        ensures
            strictly_sorted(pair_names(old_pairs.insert(i, (k, e)))),
            pairs_to_map(old_pairs.insert(i, (k, e))) == pairs_to_map(old_pairs).insert(k, e),
    {
        let new_pairs = old_pairs.insert(i, (k, e));
        let old_names = pair_names(old_pairs);
        let new_names = pair_names(new_pairs);
        assert forall|j: int| i < j < old_pairs.len() implies chars_lt(k, #[trigger] old_pairs[j].0) by {
            assert(chars_lt(old_names[i], old_names[j]));
            lemma_chars_lt_transitive(k, old_pairs[i].0, old_pairs[j].0);
        }
        assert forall|a: int, b: int| 0 <= a < b < new_names.len() implies chars_lt(
            #[trigger] new_names[a],
            #[trigger] new_names[b],
        ) by {
            if b < i {
                assert(chars_lt(old_names[a], old_names[b]));
            } else if b == i {
                assert(new_names[a] == old_pairs[a].0);
            } else if a < i {
                assert(chars_lt(old_names[a], old_names[b - 1]));
            } else if a == i {
                assert(new_names[b] == old_pairs[b - 1].0);
            } else {
                assert(chars_lt(old_names[a - 1], old_names[b - 1]));
            }
        }
        assert forall|j: int| 0 <= j < old_pairs.len() implies #[trigger] old_pairs[j].0 != k by {
            lemma_chars_lt_irreflexive(k);
            if j < i {
                lemma_chars_lt_total(old_pairs[j].0, k);
            } else {
                lemma_chars_lt_total(k, old_pairs[j].0);
            }
        }
        let m = pairs_to_map(new_pairs);
        let t = pairs_to_map(old_pairs).insert(k, e);
        assert forall|q: Seq<char>| #[trigger] m.dom().contains(q) <==> t.dom().contains(q) by {
            if m.dom().contains(q) {
                let j = choose|j: int| 0 <= j < new_pairs.len() && #[trigger] new_pairs[j].0 == q;
                if j < i {
                    assert(old_pairs[j].0 == q);
                } else if j > i {
                    assert(old_pairs[j - 1].0 == q);
                }
            }
            if t.dom().contains(q) && q != k {
                let j = choose|j: int| 0 <= j < old_pairs.len() && #[trigger] old_pairs[j].0 == q;
                if j < i {
                    assert(new_pairs[j].0 == q);
                } else {
                    assert(new_pairs[j + 1].0 == q);
                }
            }
            if q == k {
                assert(new_pairs[i].0 == q);
            }
        }
        assert forall|q: Seq<char>| #[trigger] m.dom().contains(q) implies m[q] == t[q] by {
            let j = choose|j: int| 0 <= j < new_pairs.len() && #[trigger] new_pairs[j].0 == q;
            lemma_lookup(new_pairs, j);
            if j < i {
                lemma_lookup(old_pairs, j);
            } else if j > i {
                lemma_lookup(old_pairs, j - 1);
            }
        }
        assert(m =~= t);
    }
}

impl View for ContactBook {
    type V = Map<Seq<char>, KeyRecordView>;

    closed spec fn view(&self) -> Map<Seq<char>, KeyRecordView> {
        pairs_to_map(self.pairs())
    }
}

} // verus!
