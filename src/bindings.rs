//! The table of tag bindings: which command each tag stands for.
use vstd::prelude::*;

use crate::command::{command_opt, Command, CommandView};
use crate::library::{lemma_text_lt_irreflexive, lemma_text_lt_total, lemma_text_lt_transitive, text_less, text_lt};
use crate::tag::{lemma_hex_round_trip, TagId};

verus! {

/// The command bound to `id` in `s`, from the first entry for that tag.
pub open spec fn lookup(s: Seq<(TagId, Command)>, id: TagId) -> Option<CommandView>
    decreases s.len(),
{
    if s.len() == 0 {
        None
    } else if s[0].0.bytes@ == id.bytes@ {
        Some(s[0].1@)
    } else {
        lookup(s.drop_first(), id)
    }
}

/// No two entries are for the same tag.
pub open spec fn keys_unique(s: Seq<(TagId, Command)>) -> bool {
    forall|i: int, j: int|
        0 <= i < j < s.len() ==> (#[trigger] s[i]).0.bytes@ != (#[trigger] s[j]).0.bytes@
}

/// The entries come in strictly increasing order of their tags' hex text.
pub open spec fn keys_sorted(s: Seq<(TagId, Command)>) -> bool {
    forall|i: int, j: int|
        0 <= i < j < s.len() ==> text_lt((#[trigger] s[i]).0.hex(), (#[trigger] s[j]).0.hex())
}

/// Entries in strictly increasing order are for different tags.
pub proof fn lemma_sorted_unique(s: Seq<(TagId, Command)>)
    requires
        keys_sorted(s),
    ensures
        keys_unique(s),
{
    assert forall|i: int, j: int| 0 <= i < j < s.len() implies (#[trigger] s[i]).0.bytes@
        != (#[trigger] s[j]).0.bytes@ by {
        if s[i].0.bytes@ == s[j].0.bytes@ {
            assert(s[i].0.hex() == s[j].0.hex());
            lemma_text_lt_irreflexive(s[i].0.hex());
        }
    }
}

proof fn lemma_lookup(s: Seq<(TagId, Command)>, id: TagId)
    ensures
        lookup(s, id) is None <==> forall|i: int|
            0 <= i < s.len() ==> (#[trigger] s[i]).0.bytes@ != id.bytes@,
        forall|i: int|
            0 <= i < s.len() && (#[trigger] s[i]).0.bytes@ == id.bytes@ && (forall|j: int|
                0 <= j < i ==> (#[trigger] s[j]).0.bytes@ != id.bytes@) ==> lookup(s, id) == Some(
                s[i].1@,
            ),
    decreases s.len(),
{
    if s.len() > 0 {
        lemma_lookup(s.drop_first(), id);
        assert forall|i: int| 1 <= i < s.len() implies s.drop_first()[i - 1] == #[trigger] s[i] by {}
        if lookup(s, id) is None {
            assert forall|i: int| 0 <= i < s.len() implies (#[trigger] s[i]).0.bytes@
                != id.bytes@ by {
                if i > 0 {
                    assert(s.drop_first()[i - 1] == s[i]);
                }
            }
        }
        assert forall|i: int|
            0 <= i < s.len() && (#[trigger] s[i]).0.bytes@ == id.bytes@ && (forall|j: int|
                0 <= j < i ==> (#[trigger] s[j]).0.bytes@ != id.bytes@) implies lookup(s, id)
            == Some(s[i].1@) by {
            if i > 0 {
                assert(s[0].0.bytes@ != id.bytes@);
                assert forall|j: int| 0 <= j < i - 1 implies (#[trigger] s.drop_first()[j]).0.bytes@
                    != id.bytes@ by {
                    assert(s.drop_first()[j] == s[j + 1]);
                }
                assert(s.drop_first()[i - 1] == s[i]);
            }
        }
    }
}

/// Kept in the order of the tags' hex text, one entry per tag, so that the bindings
/// are listed in that order; a hash map would hand them out in an unspecified order.
pub struct TagBindings {
    entries: Vec<(TagId, Command)>,
}

impl TagBindings {
    pub closed spec fn entries(&self) -> Seq<(TagId, Command)> {
        self.entries@
    }

    pub open spec fn wf(&self) -> bool {
        keys_sorted(self.entries())
    }

    /// The command bound to a tag.
    pub open spec fn bound(&self, id: TagId) -> Option<CommandView> {
        lookup(self.entries(), id)
    }

    pub fn new() -> (r: TagBindings)
        ensures
            r.wf(),
            forall|id: TagId| r.bound(id) is None,
    {
        TagBindings { entries: Vec::new() }
    }

    fn position(&self, id: &TagId) -> (r: Option<usize>)
        ensures
            r matches Some(i) ==> i < self.entries().len() && self.entries()[i as int].0.bytes@
                == id.bytes@ && forall|j: int|
                0 <= j < i ==> (#[trigger] self.entries()[j]).0.bytes@ != id.bytes@,
            r is None ==> forall|j: int|
                0 <= j < self.entries().len() ==> (#[trigger] self.entries()[j]).0.bytes@
                    != id.bytes@,
    {
        let mut i: usize = 0;
        while i < self.entries.len()
            invariant
                i <= self.entries@.len(),
                forall|j: int| 0 <= j < i ==> (#[trigger] self.entries@[j]).0.bytes@ != id.bytes@,
            decreases self.entries.len() - i,
        {
            if self.entries[i].0.same(id) {
                return Some(i);
            }
            i = i + 1;
        }
        None
    }

    pub fn get(&self, id: &TagId) -> (r: Option<Command>)
        ensures
            command_opt(r) == self.bound(*id),
    {
        proof {
            lemma_lookup(self.entries(), *id);
        }
        match self.position(id) {
            Some(i) => Some(self.entries[i].1.duplicate()),
            None => None,
        }
    }

    /// Drops the binding of `id`; the others stay.
    pub fn remove(&mut self, id: &TagId)
        requires
            old(self).wf(),
        ensures
            final(self).wf(),
            final(self).bound(*id) is None,
            forall|other: TagId|
                other.bytes@ != id.bytes@ ==> #[trigger] final(self).bound(other) == old(
                    self,
                ).bound(other),
    {
        let ghost s = self.entries@;
        proof {
            lemma_sorted_unique(s);
        }
        match self.position(id) {
            Some(i) => {
                self.entries.remove(i);
                let ghost t = self.entries@;
                assert(t =~= s.remove(i as int));
                assert forall|a: int, b: int| 0 <= a < b < t.len() implies text_lt(
                    (#[trigger] t[a]).0.hex(),
                    (#[trigger] t[b]).0.hex(),
                ) by {
                    let a0 = if a < i { a } else { a + 1 };
                    let b0 = if b < i { b } else { b + 1 };
                    assert(t[a] == s[a0] && t[b] == s[b0]);
                }
                proof {
                    lemma_lookup(t, *id);
                    assert forall|j: int| 0 <= j < t.len() implies (#[trigger] t[j]).0.bytes@
                        != id.bytes@ by {
                        if j < i {
                            assert(t[j] == s[j]);
                        } else {
                            assert(t[j] == s[j + 1]);
                            assert(s[i as int].0.bytes@ != s[j + 1].0.bytes@);
                        }
                    }
                }
                assert forall|other: TagId| other.bytes@ != id.bytes@ implies #[trigger] lookup(
                    t,
                    other,
                ) == lookup(s, other) by {
                    lemma_lookup(t, other);
                    lemma_lookup(s, other);
                    if lookup(s, other) is None {
                        assert forall|j: int| 0 <= j < t.len() implies (#[trigger] t[j]).0.bytes@
                            != other.bytes@ by {
                            if j < i {
                                assert(t[j] == s[j]);
                            } else {
                                assert(t[j] == s[j + 1]);
                            }
                        }
                    } else {
                        let k = choose|k: int|
                            0 <= k < s.len() && (#[trigger] s[k]).0.bytes@ == other.bytes@;
                        assert(k != i);
                        lemma_first_match(s, other, k);
                        let k0 = choose|k0: int|
                            0 <= k0 < s.len() && (#[trigger] s[k0]).0.bytes@ == other.bytes@ && (
                            forall|j: int| 0 <= j < k0 ==> (#[trigger] s[j]).0.bytes@ != other.bytes@);
                        let t0 = if k0 < i { k0 } else { k0 - 1 };
                        assert(k0 != i);
                        assert(t[t0] == s[k0]);
                        assert forall|j: int| 0 <= j < t0 implies (#[trigger] t[j]).0.bytes@
                            != other.bytes@ by {
                            if j < i {
                                assert(t[j] == s[j]);
                            } else {
                                assert(t[j] == s[j + 1]);
                            }
                        }
                    }
                }
            },
            None => {
                proof {
                    lemma_lookup(s, *id);
                }
            },
        }
    }

    /// Binds `id` to `command`, in place of any earlier binding; the others stay.
    pub fn insert(&mut self, id: TagId, command: Command)
        requires
            old(self).wf(),
        ensures
            final(self).wf(),
            final(self).bound(id) == Some(command@),
            forall|other: TagId|
                other.bytes@ != id.bytes@ ==> #[trigger] final(self).bound(other) == old(
                    self,
                ).bound(other),
    {
        self.remove(&id);
        let ghost mid = *self;
        let ghost s = self.entries@;
        let ghost x = id.hex();
        proof {
            lemma_lookup(s, id);
            lemma_sorted_unique(s);
        }
        let key = id.to_string();
        let mut k: usize = 0;
        while k < self.entries.len() && text_less(&self.entries[k].0.to_string(), &key)
            invariant
                k <= self.entries@.len(),
                self.entries@ == s,
                key@ == x,
                forall|j: int| 0 <= j < k ==> text_lt((#[trigger] s[j]).0.hex(), x),
            decreases self.entries.len() - k,
        {
            k = k + 1;
        }
        let ghost e = (id, command);
        proof {
            if k < s.len() {
                assert(s[k as int].0.bytes@ != id.bytes@);
                lemma_hex_round_trip(s[k as int].0);
                lemma_hex_round_trip(id);
                lemma_text_lt_total(s[k as int].0.hex(), x);
            }
            lemma_insert_sorted(s, k as int, e);
            assert forall|j: int| 0 <= j < s.len() implies (#[trigger] s[j]).0.bytes@
                != id.bytes@ by {}
            lemma_insert_lookup(s, k as int, e);
        }
        self.entries.insert(k, (id, command));
        assert(self.entries@ =~= s.insert(k as int, e));
        assert forall|other: TagId| other.bytes@ != id.bytes@ implies #[trigger] lookup(
            self.entries@,
            other,
        ) == old(self).bound(other) by {
            assert(mid.bound(other) == old(self).bound(other));
        }
    }

    /// Each entry is what its tag is bound to.
    pub proof fn lemma_entry_bound(&self, i: int)
        requires
            self.wf(),
            0 <= i < self.entries().len(),
        ensures
            self.bound(self.entries()[i].0) == Some(self.entries()[i].1@),
    {
        let s = self.entries();
        let id = s[i].0;
        lemma_sorted_unique(s);
        lemma_lookup(s, id);
        assert forall|j: int| 0 <= j < i implies (#[trigger] s[j]).0.bytes@ != id.bytes@ by {
            assert(s[j].0.bytes@ != s[i].0.bytes@);
        }
    }

    /// A bound tag has an entry.
    pub proof fn lemma_bound_has_entry(&self, id: TagId)
        ensures
            self.bound(id) is Some ==> exists|i: int|
                0 <= i < self.entries().len() && (#[trigger] self.entries()[i]).0.bytes@
                    == id.bytes@,
    {
        lemma_lookup(self.entries(), id);
    }

    /// A copy of every binding, in the order of the tags' hex text.
    pub fn to_vec(&self) -> (r: Vec<(TagId, Command)>)
        ensures
            r@.len() == self.entries().len(),
            forall|i: int|
                0 <= i < r@.len() ==> (#[trigger] r@[i]).0 == self.entries()[i].0 && r@[i].1@
                    == self.entries()[i].1@,
    {
        let mut r: Vec<(TagId, Command)> = Vec::new();
        let mut i: usize = 0;
        while i < self.entries.len()
            invariant
                i <= self.entries@.len(),
                r@.len() == i,
                forall|j: int|
                    0 <= j < i ==> (#[trigger] r@[j]).0 == self.entries@[j].0 && r@[j].1@
                        == self.entries@[j].1@,
            decreases self.entries.len() - i,
        {
            let (id, c) = (&self.entries[i].0, &self.entries[i].1);
            r.push((*id, c.duplicate()));
            i = i + 1;
        }
        r
    }

    /// A table with the same bindings.
    pub fn duplicate(&self) -> (r: TagBindings)
        requires
            self.wf(),
        ensures
            r.wf(),
            forall|id: TagId| #[trigger] r.bound(id) == self.bound(id),
    {
        let copy = self.to_vec();
        let r = TagBindings { entries: copy };
        assert forall|a: int, b: int| 0 <= a < b < copy@.len() implies text_lt(
            (#[trigger] copy@[a]).0.hex(),
            (#[trigger] copy@[b]).0.hex(),
        ) by {
            assert(copy@[a].0 == self.entries@[a].0 && copy@[b].0 == self.entries@[b].0);
        }
        assert forall|id: TagId| #[trigger] r.bound(id) == self.bound(id) by {
            lemma_same_lookup(copy@, self.entries@, id);
        }
        r
    }
}

/// An entry put at a place between smaller and greater keys keeps the order.
proof fn lemma_insert_sorted(s: Seq<(TagId, Command)>, k: int, e: (TagId, Command))
    requires
        keys_sorted(s),
        0 <= k <= s.len(),
        forall|j: int| 0 <= j < k ==> text_lt((#[trigger] s[j]).0.hex(), e.0.hex()),
        k < s.len() ==> text_lt(e.0.hex(), s[k].0.hex()),
    ensures
        keys_sorted(s.insert(k, e)),
{
    let t = s.insert(k, e);
    s.insert_ensures(k, e);
    let x = e.0.hex();
    assert forall|a: int, b: int| 0 <= a < b < t.len() implies text_lt(
        (#[trigger] t[a]).0.hex(),
        (#[trigger] t[b]).0.hex(),
    ) by {
        if b < k {
            assert(t[a] == s[a] && t[b] == s[b]);
        } else if b == k {
            assert(t[a] == s[a] && t[b] == e);
        } else if a == k {
            assert(t[a] == e && t[b] == s[b - 1]);
            if b - 1 > k {
                assert(text_lt(s[k].0.hex(), s[b - 1].0.hex()));
                lemma_text_lt_transitive(x, s[k].0.hex(), s[b - 1].0.hex());
            }
        } else if a < k {
            assert(t[a] == s[a] && t[b] == s[b - 1]);
        } else {
            assert(t[a] == s[a - 1] && t[b] == s[b - 1]);
        }
    }
}

/// Inserting an entry for a tag that had none binds that tag and leaves the others.
proof fn lemma_insert_lookup(s: Seq<(TagId, Command)>, k: int, e: (TagId, Command))
    requires
        0 <= k <= s.len(),
        forall|j: int| 0 <= j < s.len() ==> (#[trigger] s[j]).0.bytes@ != e.0.bytes@,
    ensures
        lookup(s.insert(k, e), e.0) == Some(e.1@),
        forall|other: TagId|
            other.bytes@ != e.0.bytes@ ==> #[trigger] lookup(s.insert(k, e), other) == lookup(
                s,
                other,
            ),
{
    let t = s.insert(k, e);
    s.insert_ensures(k, e);
    lemma_lookup(t, e.0);
    assert forall|j: int| 0 <= j < k implies (#[trigger] t[j]).0.bytes@ != e.0.bytes@ by {
        assert(t[j] == s[j]);
    }
    assert(t[k] == e);
    assert forall|other: TagId| other.bytes@ != e.0.bytes@ implies #[trigger] lookup(t, other)
        == lookup(s, other) by {
        lemma_insert_lookup_other(s, k, e, other);
    }
}

proof fn lemma_insert_lookup_other(
    s: Seq<(TagId, Command)>,
    k: int,
    e: (TagId, Command),
    other: TagId,
)
    requires
        0 <= k <= s.len(),
        other.bytes@ != e.0.bytes@,
    ensures
        lookup(s.insert(k, e), other) == lookup(s, other),
{
    let t = s.insert(k, e);
    s.insert_ensures(k, e);
    lemma_lookup(t, other);
    lemma_lookup(s, other);
    if lookup(s, other) is None {
        assert forall|j: int| 0 <= j < t.len() implies (#[trigger] t[j]).0.bytes@
            != other.bytes@ by {
            if j < k {
                assert(t[j] == s[j]);
            } else if j > k {
                assert(t[j] == s[j - 1]);
            }
        }
    } else {
        let k1 = choose|k1: int| 0 <= k1 < s.len() && (#[trigger] s[k1]).0.bytes@ == other.bytes@;
        lemma_first_match(s, other, k1);
        let k0 = choose|k0: int|
            0 <= k0 < s.len() && (#[trigger] s[k0]).0.bytes@ == other.bytes@ && (forall|j: int|
                0 <= j < k0 ==> (#[trigger] s[j]).0.bytes@ != other.bytes@);
        let t0 = if k0 < k {
            k0
        } else {
            k0 + 1
        };
        assert(t[t0] == s[k0]);
        assert forall|j: int| 0 <= j < t0 implies (#[trigger] t[j]).0.bytes@ != other.bytes@ by {
            if j < k {
                assert(t[j] == s[j]);
            } else if j > k {
                assert(t[j] == s[j - 1]);
            }
        }
    }
}

/// Among the entries for `id`, there is a first one.
proof fn lemma_first_match(s: Seq<(TagId, Command)>, id: TagId, k: int)
    requires
        0 <= k < s.len(),
        s[k].0.bytes@ == id.bytes@,
    ensures
        exists|k0: int|
            0 <= k0 < s.len() && (#[trigger] s[k0]).0.bytes@ == id.bytes@ && (forall|j: int|
                0 <= j < k0 ==> (#[trigger] s[j]).0.bytes@ != id.bytes@),
    decreases k,
{
    if exists|j: int| 0 <= j < k && (#[trigger] s[j]).0.bytes@ == id.bytes@ {
        let j = choose|j: int| 0 <= j < k && (#[trigger] s[j]).0.bytes@ == id.bytes@;
        lemma_first_match(s, id, j);
    } else {
        assert(forall|j: int| 0 <= j < k ==> (#[trigger] s[j]).0.bytes@ != id.bytes@);
    }
}

/// Tables whose entries agree entry by entry bind the same commands.
proof fn lemma_same_lookup(a: Seq<(TagId, Command)>, b: Seq<(TagId, Command)>, id: TagId)
    requires
        a.len() == b.len(),
        forall|i: int| 0 <= i < a.len() ==> (#[trigger] a[i]).0 == b[i].0 && a[i].1@ == b[i].1@,
    ensures
        lookup(a, id) == lookup(b, id),
    decreases a.len(),
{
    if a.len() > 0 {
        assert(a[0].0 == b[0].0);
        assert forall|i: int| 0 <= i < a.len() - 1 implies (#[trigger] a.drop_first()[i]).0
            == b.drop_first()[i].0 && a.drop_first()[i].1@ == b.drop_first()[i].1@ by {
            assert(a.drop_first()[i] == a[i + 1]);
            assert(b.drop_first()[i] == b[i + 1]);
        }
        lemma_same_lookup(a.drop_first(), b.drop_first(), id);
    }
}

} // verus!
