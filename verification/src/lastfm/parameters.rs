//! The parameters of a request: names with their values, kept in the order
//! in which a request is signed.

use vstd::prelude::*;
use vstd::string::StringExecFns;
use vstd::utf8::encode_utf8;

use crate::lastfm::digest::{hex_lower, lemma_hex_lower_injective, md5_digest, md5_of, to_hex_lower};
use crate::text::{
    compare_text, lemma_encoding_injective, lemma_precedes_total, lemma_precedes_transitive,
    precedes, same_text, Precedence,
};

verus! {

/// A parameter: its name and its value.
#[derive(Debug)]
pub struct Entry {
    pub name: String,
    pub value: String,
}

impl Entry {
    /// The name and the value as plain text.
    pub open spec fn pair(self) -> (Seq<char>, Seq<char>) {
        (self.name@, self.value@)
    }
}

/// Whether the names of `pairs` stand in strictly rising order.
pub open spec fn sorted(pairs: Seq<(Seq<char>, Seq<char>)>) -> bool {
    forall|i: int, j: int| 0 <= i < j < pairs.len() ==> precedes(#[trigger] pairs[i].0, #[trigger] pairs[j].0)
}

/// Whether one of `pairs` is named `name`.
pub open spec fn has_name(pairs: Seq<(Seq<char>, Seq<char>)>, name: Seq<char>) -> bool {
    exists|i: int| 0 <= i < pairs.len() && (#[trigger] pairs[i]).0 == name
}

/// Where in `pairs` the parameter named `name` stands.
pub open spec fn index_of(pairs: Seq<(Seq<char>, Seq<char>)>, name: Seq<char>) -> int {
    choose|i: int| 0 <= i < pairs.len() && (#[trigger] pairs[i]).0 == name
}

/// The mapping from names to values that `pairs` lists.
pub open spec fn as_map(pairs: Seq<(Seq<char>, Seq<char>)>) -> Map<Seq<char>, Seq<char>> {
    Map::new(|name: Seq<char>| has_name(pairs, name), |name: Seq<char>| pairs[index_of(pairs, name)].1)
}

/// The listing of `parameters` in the order of their names: the one sorted
/// sequence that lists exactly them.
pub open spec fn canonical(parameters: Map<Seq<char>, Seq<char>>) -> Seq<(Seq<char>, Seq<char>)> {
    choose|pairs: Seq<(Seq<char>, Seq<char>)>| sorted(pairs) && as_map(pairs) == parameters
}

/// In a sorted listing a name stands in one place only.
pub proof fn lemma_index_of_sorted(pairs: Seq<(Seq<char>, Seq<char>)>, i: int)
    requires
        sorted(pairs),
        0 <= i < pairs.len(),
    ensures
        has_name(pairs, pairs[i].0),
        index_of(pairs, pairs[i].0) == i,
        as_map(pairs).contains_key(pairs[i].0),
        as_map(pairs)[pairs[i].0] == pairs[i].1,
{
    let name = pairs[i].0;
    let j = index_of(pairs, name);
    lemma_precedes_total(name, name);
    if j < i {
        assert(precedes(pairs[j].0, pairs[i].0));
    } else if i < j {
        assert(precedes(pairs[i].0, pairs[j].0));
    }
}

/// Two sorted listings of the same parameters are the same listing.
pub proof fn lemma_sorted_listing_unique(
    p: Seq<(Seq<char>, Seq<char>)>,
    q: Seq<(Seq<char>, Seq<char>)>,
)
    requires
        sorted(p),
        sorted(q),
        as_map(p) == as_map(q),
    ensures
        p == q,
    decreases p.len(),
{
    if p.len() == 0 {
        if q.len() > 0 {
            lemma_index_of_sorted(q, 0);
            assert(as_map(p).contains_key(q[0].0));
        }
        assert(p =~= q);
    } else if q.len() == 0 {
        lemma_index_of_sorted(p, 0);
        assert(as_map(q).contains_key(p[0].0));
    } else {
        let last_p = p.last();
        let last_q = q.last();
        lemma_index_of_sorted(p, p.len() - 1);
        lemma_index_of_sorted(q, q.len() - 1);
        // The greatest name is the last in both.
        assert(as_map(q).contains_key(last_p.0));
        assert(as_map(p).contains_key(last_q.0));
        let i = index_of(q, last_p.0);
        let j = index_of(p, last_q.0);
        lemma_precedes_total(last_p.0, last_q.0);
        if last_p.0 != last_q.0 {
            if precedes(last_p.0, last_q.0) {
                assert(j < p.len() - 1);
                assert(precedes(p[j].0, p[p.len() - 1].0));
            } else {
                assert(i < q.len() - 1);
                assert(precedes(q[i].0, q[q.len() - 1].0));
            }
        }
        assert(last_p.0 == last_q.0);
        assert(last_p.1 == last_q.1);
        let p0 = p.drop_last();
        let q0 = q.drop_last();
        assert(sorted(p0));
        assert(sorted(q0));
        lemma_drop_last_map(p);
        lemma_drop_last_map(q);
        lemma_sorted_listing_unique(p0, q0);
        assert(p =~= p0.push(last_p));
        assert(q =~= q0.push(last_q));
    }
}

/// Without its last parameter a sorted listing lists the same parameters
/// but that one.
pub proof fn lemma_drop_last_map(p: Seq<(Seq<char>, Seq<char>)>)
    requires
        sorted(p),
        p.len() > 0,
    ensures
        as_map(p.drop_last()) == as_map(p).remove(p.last().0),
{
    let p0 = p.drop_last();
    let gone = p.last().0;
    assert(sorted(p0));
    assert forall|name: Seq<char>| as_map(p0).contains_key(name) <==> as_map(p).remove(
        gone,
    ).contains_key(name) by {
        if as_map(p0).contains_key(name) {
            let i = index_of(p0, name);
            assert(p[i].0 == name);
            lemma_precedes_total(name, gone);
            assert(precedes(p[i].0, p[p.len() - 1].0));
        }
        if as_map(p).remove(gone).contains_key(name) {
            let i = index_of(p, name);
            assert(i < p.len() - 1);
            assert(p0[i].0 == name);
        }
    }
    assert forall|name: Seq<char>| as_map(p0).contains_key(name) implies as_map(p0)[name] == as_map(
        p,
    ).remove(gone)[name] by {
        let i = index_of(p0, name);
        assert(p[i].0 == name);
        lemma_index_of_sorted(p, i);
        lemma_index_of_sorted(p0, i);
    }
    assert(as_map(p0) =~= as_map(p).remove(gone));
}

/// A sorted listing lists as many parameters as it is long.
pub proof fn lemma_listing_len(p: Seq<(Seq<char>, Seq<char>)>)
    requires
        sorted(p),
    ensures
        as_map(p).dom().finite(),
        as_map(p).dom().len() == p.len(),
    decreases p.len(),
{
    if p.len() == 0 {
        assert(as_map(p).dom() =~= Set::<Seq<char>>::empty());
    } else {
        let rest = p.drop_last();
        let gone = p.last().0;
        assert(sorted(rest));
        lemma_listing_len(rest);
        lemma_drop_last_map(p);
        lemma_index_of_sorted(p, p.len() - 1);
        assert(as_map(p).dom() =~= as_map(rest).dom().insert(gone));
        assert(!as_map(rest).dom().contains(gone));
    }
}

/// A sorted listing is the canonical listing of the parameters it lists.
pub proof fn lemma_canonical(pairs: Seq<(Seq<char>, Seq<char>)>)
    requires
        sorted(pairs),
    ensures
        canonical(as_map(pairs)) == pairs,
{
    let chosen = canonical(as_map(pairs));
    lemma_sorted_listing_unique(chosen, pairs);
}

/// Putting a parameter where its name belongs keeps a listing sorted, and
/// the listing then lists it beside the others.
pub proof fn lemma_insert_at(
    p: Seq<(Seq<char>, Seq<char>)>,
    i: int,
    name: Seq<char>,
    value: Seq<char>,
)
    requires
        sorted(p),
        0 <= i <= p.len(),
        forall|j: int| 0 <= j < i ==> precedes((#[trigger] p[j]).0, name),
        i < p.len() ==> precedes(name, p[i].0),
    ensures
        sorted(p.insert(i, (name, value))),
        as_map(p.insert(i, (name, value))) == as_map(p).insert(name, value),
{
    let q = p.insert(i, (name, value));
    assert forall|j: int| i <= j < p.len() implies precedes(name, (#[trigger] p[j]).0) by {
        if i < j {
            assert(precedes(p[i].0, p[j].0));
            lemma_precedes_transitive(name, p[i].0, p[j].0);
        }
    }
    assert forall|a: int, b: int| 0 <= a < b < q.len() implies precedes(
        #[trigger] q[a].0,
        #[trigger] q[b].0,
    ) by {
        if b < i {
            assert(precedes(p[a].0, p[b].0));
        } else if b == i {
            assert(precedes(p[a].0, name));
        } else if a < i {
            assert(precedes(p[a].0, p[b - 1].0));
        } else if a == i {
            assert(precedes(name, p[b - 1].0));
        } else {
            assert(precedes(p[a - 1].0, p[b - 1].0));
        }
    }
    assert forall|key: Seq<char>| as_map(q).contains_key(key) <==> as_map(p).insert(
        name,
        value,
    ).contains_key(key) by {
        if as_map(q).contains_key(key) {
            let j = index_of(q, key);
            if j < i {
                assert(p[j].0 == key);
            } else if j > i {
                assert(p[j - 1].0 == key);
            }
        }
        if as_map(p).contains_key(key) {
            let j = index_of(p, key);
            if j < i {
                assert(q[j].0 == key);
            } else {
                assert(q[j + 1].0 == key);
            }
        }
        if key == name {
            assert(q[i].0 == key);
        }
    }
    assert forall|key: Seq<char>| as_map(q).contains_key(key) implies as_map(q)[key] == as_map(
        p,
    ).insert(name, value)[key] by {
        let j = index_of(q, key);
        lemma_index_of_sorted(q, j);
        if j < i {
            lemma_index_of_sorted(p, j);
            lemma_precedes_total(key, name);
            assert(precedes(p[j].0, name));
        } else if j > i {
            lemma_index_of_sorted(p, j - 1);
            lemma_index_of_sorted(q, i);
            lemma_precedes_total(name, key);
            assert(precedes(q[i].0, q[j].0));
        }
    }
    assert(as_map(q) =~= as_map(p).insert(name, value));
}

/// Giving a listed parameter another value keeps a listing sorted, and
/// the listing then lists the new value under the same name.
pub proof fn lemma_update_at(p: Seq<(Seq<char>, Seq<char>)>, i: int, value: Seq<char>)
    requires
        sorted(p),
        0 <= i < p.len(),
    ensures
        sorted(p.update(i, (p[i].0, value))),
        as_map(p.update(i, (p[i].0, value))) == as_map(p).insert(p[i].0, value),
{
    let name = p[i].0;
    let q = p.update(i, (name, value));
    assert forall|a: int, b: int| 0 <= a < b < q.len() implies precedes(
        #[trigger] q[a].0,
        #[trigger] q[b].0,
    ) by {
        assert(precedes(p[a].0, p[b].0));
    }
    assert forall|key: Seq<char>| as_map(q).contains_key(key) <==> as_map(p).insert(
        name,
        value,
    ).contains_key(key) by {
        if as_map(q).contains_key(key) {
            let j = index_of(q, key);
            assert(p[j].0 == key);
        }
        if as_map(p).contains_key(key) {
            let j = index_of(p, key);
            assert(q[j].0 == key);
        }
        if key == name {
            assert(q[i].0 == key);
        }
    }
    assert forall|key: Seq<char>| as_map(q).contains_key(key) implies as_map(q)[key] == as_map(
        p,
    ).insert(name, value)[key] by {
        let j = index_of(q, key);
        lemma_index_of_sorted(q, j);
        lemma_index_of_sorted(p, j);
        lemma_index_of_sorted(p, i);
        lemma_index_of_sorted(q, i);
    }
    assert(as_map(q) =~= as_map(p).insert(name, value));
}

/// The names with their values as plain text, in the order of `entries`.
pub open spec fn pairs_of(entries: Seq<Entry>) -> Seq<(Seq<char>, Seq<char>)> {
    Seq::new(entries.len(), |i: int| entries[i].pair())
}

/// Whether a parameter of this name is part of what is signed: the
/// signature itself is not, and neither are the two parameters that only say
/// in which form the answer is wanted.
pub open spec fn is_signed(name: Seq<char>) -> bool {
    name != "api_sig"@ && name != "format"@ && name != "callback"@
}

/// Each signed parameter's name followed at once by its value, in the order
/// of `pairs`.
pub open spec fn base_of(pairs: Seq<(Seq<char>, Seq<char>)>) -> Seq<char>
    decreases pairs.len(),
{
    if pairs.len() == 0 {
        Seq::empty()
    } else {
        base_of(pairs.drop_last()) + (if is_signed(pairs.last().0) {
            pairs.last().0 + pairs.last().1
        } else {
            Seq::empty()
        })
    }
}

/// The text that is signed for `parameters`: the signed parameters in the
/// order of their names, each name followed by its value.
pub open spec fn signing_base(parameters: Map<Seq<char>, Seq<char>>) -> Seq<char> {
    base_of(canonical(parameters))
}

/// The signature of `parameters` under the client's `secret`: the digest of
/// the signing base followed by the secret, in lower-case hexadecimal.
pub open spec fn signature_of(parameters: Map<Seq<char>, Seq<char>>, secret: Seq<char>) -> Seq<
    char,
> {
    hex_lower(md5_digest(encode_utf8(signing_base(parameters) + secret)))
}

/// The parameters of a request. Each name has one value: adding a name
/// again replaces the value it had.
#[derive(Debug)]
pub struct Parameters {
    entries: Vec<Entry>,
}

impl View for Parameters {
    type V = Map<Seq<char>, Seq<char>>;

    closed spec fn view(&self) -> Map<Seq<char>, Seq<char>> {
        as_map(pairs_of(self.entries@))
    }
}

impl Parameters {
    #[verifier::type_invariant]
    spec fn ordered(self) -> bool {
        sorted(pairs_of(self.entries@))
    }

    /// No parameters.
    pub fn new() -> (parameters: Self)
        ensures
            parameters@ == Map::<Seq<char>, Seq<char>>::empty(),
    {
        let parameters = Parameters { entries: Vec::new() };
        assert(parameters@ =~= Map::<Seq<char>, Seq<char>>::empty());
        parameters
    }

    /// How many parameters there are.
    pub fn len(&self) -> (n: usize)
        ensures
            self@.dom().finite(),
            n == self@.dom().len(),
            n == canonical(self@).len(),
    {
        proof {
            use_type_invariant(self);
            lemma_canonical(pairs_of(self.entries@));
            lemma_listing_len(pairs_of(self.entries@));
        }
        self.entries.len()
    }

    /// The parameters in the order of their names.
    pub fn entries(&self) -> (entries: &Vec<Entry>)
        ensures
            pairs_of(entries@) == canonical(self@),
            sorted(pairs_of(entries@)),
            as_map(pairs_of(entries@)) == self@,
    {
        proof {
            use_type_invariant(self);
            lemma_canonical(pairs_of(self.entries@));
        }
        &self.entries
    }

    /// The value of the parameter named `name`, if there is one.
    pub fn get(&self, name: &str) -> (value: Option<&String>)
        ensures
            value is Some <==> self@.contains_key(name@),
            value matches Some(v) ==> v@ == self@[name@],
    {
        proof {
            use_type_invariant(self);
        }
        let mut i: usize = 0;
        while i < self.entries.len()
            invariant
                i <= self.entries@.len(),
                sorted(pairs_of(self.entries@)),
                forall|j: int| 0 <= j < i ==> (#[trigger] pairs_of(self.entries@)[j]).0 != name@,
            decreases self.entries@.len() - i,
        {
            if same_text(self.entries[i].name.as_str(), name) {
                proof {
                    lemma_index_of_sorted(pairs_of(self.entries@), i as int);
                }
                return Some(&self.entries[i].value);
            }
            i += 1;
        }
        proof {
            if self@.contains_key(name@) {
                let j = index_of(pairs_of(self.entries@), name@);
                assert(pairs_of(self.entries@)[j].0 == name@);
            }
        }
        None
    }

    /// Sets the parameter named `name` to `value`, whether or not it had a
    /// value before.
    pub fn add(&mut self, name: String, value: String)
        ensures
            final(self)@ == old(self)@.insert(name@, value@),
    {
        proof {
            use_type_invariant(&*self);
        }
        let mut entries: Vec<Entry> = Vec::new();
        assert(pairs_of(entries@) =~= Seq::empty());
        core::mem::swap(&mut entries, &mut self.entries);
        let ghost before = pairs_of(entries@);
        let mut i: usize = 0;
        let mut found = false;
        while i < entries.len()
            invariant_except_break
                !found,
            invariant
                i <= entries@.len(),
                pairs_of(entries@) == before,
                sorted(before),
                forall|j: int| 0 <= j < i ==> precedes((#[trigger] before[j]).0, name@),
            ensures
                i <= entries@.len(),
                pairs_of(entries@) == before,
                forall|j: int| 0 <= j < i ==> precedes((#[trigger] before[j]).0, name@),
                found ==> i < entries@.len() && before[i as int].0 == name@,
                !found && i < entries@.len() ==> precedes(name@, before[i as int].0),
            decreases entries@.len() - i,
        {
            match compare_text(entries[i].name.as_str(), name.as_str()) {
                Precedence::Before => {
                    assert(before[i as int].0 == entries@[i as int].name@);
                    i += 1;
                },
                Precedence::Same => {
                    assert(before[i as int].0 == entries@[i as int].name@);
                    found = true;
                    break ;
                },
                Precedence::After => {
                    proof {
                        assert(before[i as int].0 == entries@[i as int].name@);
                        lemma_precedes_total(entries@[i as int].name@, name@);
                    }
                    break ;
                },
            }
        }
        if found {
            proof {
                lemma_update_at(before, i as int, value@);
            }
            entries[i] = Entry { name, value };
            assert(pairs_of(entries@) =~= before.update(i as int, (name@, value@)));
        } else {
            proof {
                lemma_insert_at(before, i as int, name@, value@);
            }
            entries.insert(i, Entry { name, value });
            assert(pairs_of(entries@) =~= before.insert(i as int, (name@, value@)));
        }
        self.entries = entries;
    }

    /// The text that is signed for these parameters.
    pub fn signing_base(&self) -> (base: String)
        ensures
            base@ == signing_base(self@),
    {
        proof {
            use_type_invariant(self);
            lemma_canonical(pairs_of(self.entries@));
        }
        let ghost pairs = pairs_of(self.entries@);
        let mut base = String::new();
        let mut i: usize = 0;
        while i < self.entries.len()
            invariant
                i <= self.entries@.len(),
                pairs == pairs_of(self.entries@),
                base@ == base_of(pairs.take(i as int)),
            decreases self.entries@.len() - i,
        {
            let entry = &self.entries[i];
            let signed = !same_text(entry.name.as_str(), "api_sig") && !same_text(
                entry.name.as_str(),
                "format",
            ) && !same_text(entry.name.as_str(), "callback");
            proof {
                let upto = pairs.take(i + 1);
                assert(upto.drop_last() =~= pairs.take(i as int));
                assert(upto.last() == entry.pair());
                assert(signed == is_signed(entry.name@));
            }
            if signed {
                let ghost so_far = base@;
                base.append(entry.name.as_str());
                base.append(entry.value.as_str());
                assert(base@ =~= so_far + (entry.name@ + entry.value@));
            } else {
                assert(base@ =~= base@ + Seq::<char>::empty());
            }
            i += 1;
        }
        assert(pairs.take(i as int) =~= pairs);
        base
    }

    /// The signature of these parameters under the client's `secret`.
    pub fn sign(&self, secret: &str) -> (signature: String)
        ensures
            signature@ == signature_of(self@, secret@),
    {
        let mut text = self.signing_base();
        text.append(secret);
        let digest = md5_of(text.as_str().as_bytes());
        to_hex_lower(digest.as_slice())
    }
}

/// The signing base of two listings put end to end is their signing bases
/// put end to end.
pub proof fn lemma_base_of_concat(a: Seq<(Seq<char>, Seq<char>)>, b: Seq<(Seq<char>, Seq<char>)>)
    ensures
        base_of(a + b) == base_of(a) + base_of(b),
    decreases b.len(),
{
    if b.len() == 0 {
        assert(a + b =~= a);
        assert(base_of(a) + base_of(b) =~= base_of(a));
    } else {
        lemma_base_of_concat(a, b.drop_last());
        assert((a + b).drop_last() =~= a + b.drop_last());
        assert((a + b).last() == b.last());
        let tail = if is_signed(b.last().0) {
            b.last().0 + b.last().1
        } else {
            Seq::<char>::empty()
        };
        assert(base_of(a) + base_of(b.drop_last()) + tail =~= base_of(a) + (base_of(b.drop_last())
            + tail));
    }
}

/// The order in which parameters are added does not matter to the signature:
/// two names added in either order leave the same parameters, hence the same
/// signing base and the same signature.
pub proof fn lemma_signature_ignores_insertion_order(
    parameters: Map<Seq<char>, Seq<char>>,
    first: (Seq<char>, Seq<char>),
    second: (Seq<char>, Seq<char>),
    secret: Seq<char>,
)
    requires
        first.0 != second.0,
    ensures
        parameters.insert(first.0, first.1).insert(second.0, second.1) == parameters.insert(
            second.0,
            second.1,
        ).insert(first.0, first.1),
        signing_base(parameters.insert(first.0, first.1).insert(second.0, second.1))
            == signing_base(parameters.insert(second.0, second.1).insert(first.0, first.1)),
        signature_of(parameters.insert(first.0, first.1).insert(second.0, second.1), secret)
            == signature_of(parameters.insert(second.0, second.1).insert(first.0, first.1), secret),
{
    assert(parameters.insert(first.0, first.1).insert(second.0, second.1) =~= parameters.insert(
        second.0,
        second.1,
    ).insert(first.0, first.1));
}

/// Giving a signed parameter another value changes the text that is signed.
pub proof fn lemma_changed_value_changes_base(
    listing: Seq<(Seq<char>, Seq<char>)>,
    i: int,
    value: Seq<char>,
)
    requires
        sorted(listing),
        0 <= i < listing.len(),
        is_signed(listing[i].0),
        value != listing[i].1,
    ensures
        signing_base(as_map(listing).insert(listing[i].0, value)) != signing_base(as_map(listing)),
{
    let name = listing[i].0;
    let changed = listing.update(i, (name, value));
    lemma_update_at(listing, i, value);
    lemma_canonical(listing);
    lemma_canonical(changed);
    let head = listing.take(i);
    let tail = listing.skip(i + 1);
    assert(listing =~= head + seq![listing[i]] + tail);
    assert(changed =~= head + seq![(name, value)] + tail);
    lemma_base_of_concat(head + seq![listing[i]], tail);
    lemma_base_of_concat(head, seq![listing[i]]);
    lemma_base_of_concat(head + seq![(name, value)], tail);
    lemma_base_of_concat(head, seq![(name, value)]);
    assert(base_of(seq![listing[i]]) =~= name + listing[i].1) by {
        reveal_with_fuel(base_of, 2);
        assert(seq![listing[i]].drop_last() =~= Seq::empty());
    }
    assert(base_of(seq![(name, value)]) =~= name + value) by {
        reveal_with_fuel(base_of, 2);
        assert(seq![(name, value)].drop_last() =~= Seq::empty());
    }
    let before = base_of(head) + (name + listing[i].1) + base_of(tail);
    let after = base_of(head) + (name + value) + base_of(tail);
    let at: int = (base_of(head).len() + name.len()) as int;
    if before == after {
        assert(listing[i].1.len() == value.len());
        assert(before.subrange(at, at + value.len()) =~= listing[i].1);
        assert(after.subrange(at, at + value.len()) =~= value);
    }
}

/// Giving a signed parameter another value changes the signature, unless the
/// digest happens to be the same for the two texts that are signed: the texts
/// themselves always differ.
pub proof fn lemma_changed_value_changes_signature(
    listing: Seq<(Seq<char>, Seq<char>)>,
    i: int,
    value: Seq<char>,
    secret: Seq<char>,
)
    requires
        sorted(listing),
        0 <= i < listing.len(),
        is_signed(listing[i].0),
        value != listing[i].1,
    ensures
        ({
            let before = as_map(listing);
            let after = before.insert(listing[i].0, value);
            let signed_before = encode_utf8(signing_base(before) + secret);
            let signed_after = encode_utf8(signing_base(after) + secret);
            &&& signed_before != signed_after
            &&& signature_of(before, secret) == signature_of(after, secret) ==> md5_digest(
                signed_before,
            ) == md5_digest(signed_after)
        }),
{
    let before = as_map(listing);
    let after = before.insert(listing[i].0, value);
    lemma_changed_value_changes_base(listing, i, value);
    let x = signing_base(before);
    let y = signing_base(after);
    if x + secret == y + secret {
        assert((x + secret).len() == x.len() + secret.len());
        assert((y + secret).len() == y.len() + secret.len());
        assert(x.len() == y.len());
        assert((x + secret).subrange(0, x.len() as int) =~= x);
        assert((y + secret).subrange(0, y.len() as int) =~= y);
    }
    lemma_encoding_injective(x + secret, y + secret);
    if signature_of(before, secret) == signature_of(after, secret) {
        lemma_hex_lower_injective(
            md5_digest(encode_utf8(x + secret)),
            md5_digest(encode_utf8(y + secret)),
        );
    }
}

/// `parameters` after each of `pairs` was added in turn.
pub open spec fn added_all(
    parameters: Map<Seq<char>, Seq<char>>,
    pairs: Seq<(Seq<char>, Seq<char>)>,
) -> Map<Seq<char>, Seq<char>>
    decreases pairs.len(),
{
    if pairs.len() == 0 {
        parameters
    } else {
        added_all(parameters, pairs.drop_last()).insert(pairs.last().0, pairs.last().1)
    }
}

/// Whether no two of `pairs` bear the same name.
pub open spec fn distinct_names(pairs: Seq<(Seq<char>, Seq<char>)>) -> bool {
    forall|i: int, j: int|
        0 <= i < pairs.len() && 0 <= j < pairs.len() && i != j ==> (#[trigger] pairs[i]).0 != (
        #[trigger] pairs[j]).0
}

/// What adding parameters of different names comes to, name by name: a
/// name that was added bears the value it was added with, and any other name
/// stands as it stood before.
pub proof fn lemma_added_all(
    parameters: Map<Seq<char>, Seq<char>>,
    pairs: Seq<(Seq<char>, Seq<char>)>,
    name: Seq<char>,
)
    requires
        distinct_names(pairs),
    ensures
        added_all(parameters, pairs).contains_key(name) <==> parameters.contains_key(name)
            || has_name(pairs, name),
        has_name(pairs, name) ==> added_all(parameters, pairs)[name] == pairs[index_of(
            pairs,
            name,
        )].1,
        !has_name(pairs, name) ==> added_all(parameters, pairs)[name] == parameters[name],
    decreases pairs.len(),
{
    if pairs.len() > 0 {
        let rest = pairs.drop_last();
        let last = pairs.last();
        assert(distinct_names(rest)) by {
            assert forall|i: int, j: int|
                0 <= i < rest.len() && 0 <= j < rest.len() && i != j implies (#[trigger] rest[i]).0
                != (#[trigger] rest[j]).0 by {
                assert(rest[i] == pairs[i]);
                assert(rest[j] == pairs[j]);
            }
        }
        lemma_added_all(parameters, rest, name);
        assert(pairs[pairs.len() - 1] == last);
        if has_name(rest, name) {
            let i = index_of(rest, name);
            assert(pairs[i] == rest[i]);
            assert(has_name(pairs, name));
        }
        if has_name(pairs, name) {
            let i = index_of(pairs, name);
            if i < rest.len() {
                assert(rest[i] == pairs[i]);
                assert(has_name(rest, name));
                let k = index_of(rest, name);
                assert(pairs[k] == rest[k]);
                assert(k == i);
                assert(name != last.0);
            } else {
                assert(name == last.0);
            }
        }
    }
}

/// The signature does not depend on the order in which the parameters were
/// added: two runs of additions that add the same parameters, each name once,
/// leave the same parameters behind, and so the same signing base and the same
/// signature.
pub proof fn lemma_signature_ignores_order_of_additions(
    parameters: Map<Seq<char>, Seq<char>>,
    one: Seq<(Seq<char>, Seq<char>)>,
    other: Seq<(Seq<char>, Seq<char>)>,
    secret: Seq<char>,
)
    requires
        distinct_names(one),
        distinct_names(other),
        forall|pair: (Seq<char>, Seq<char>)| one.contains(pair) <==> other.contains(pair),
    ensures
        added_all(parameters, one) == added_all(parameters, other),
        signing_base(added_all(parameters, one)) == signing_base(added_all(parameters, other)),
        signature_of(added_all(parameters, one), secret) == signature_of(
            added_all(parameters, other),
            secret,
        ),
{
    let a = added_all(parameters, one);
    let b = added_all(parameters, other);
    assert forall|name: Seq<char>| #[trigger]
        a.dom().contains(name) == b.dom().contains(name) && (a.dom().contains(name) ==> a[name]
            == b[name]) by {
        lemma_added_all(parameters, one, name);
        lemma_added_all(parameters, other, name);
        if has_name(one, name) {
            let i = index_of(one, name);
            assert(one.contains(one[i]));
            let j = choose|j: int| 0 <= j < other.len() && other[j] == one[i];
            assert(other[j].0 == name);
            let k = index_of(other, name);
            assert(k == j);
        }
        if has_name(other, name) {
            let j = index_of(other, name);
            assert(other.contains(other[j]));
            let i = choose|i: int| 0 <= i < one.len() && one[i] == other[j];
            assert(one[i].0 == name);
        }
    }
    assert(a =~= b);
}

} // verus!
