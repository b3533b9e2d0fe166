use vstd::prelude::*;

verus! {

/// A declared function: its name and its number of parameters.
pub struct Signature {
    pub name: String,
    pub arity: usize,
}

/// The functions declared so far, by name; declaring a name again replaces
/// its number of parameters.
pub struct FunctionTable {
    entries: Vec<Signature>,
}

pub open spec fn signature_map(s: Seq<Signature>) -> Map<Seq<char>, nat>
    decreases s.len(),
{
    if s.len() == 0 {
        Map::empty()
    } else {
        signature_map(s.drop_last()).insert(s.last().name@, s.last().arity as nat)
    }
}

pub open spec fn signature_names_distinct(s: Seq<Signature>) -> bool {
    forall|i: int, j: int| 0 <= i < j < s.len() ==> s[i].name@ != s[j].name@
}

proof fn lemma_signature_map(s: Seq<Signature>, k: Seq<char>)
    requires
        signature_names_distinct(s),
    ensures
        signature_map(s).contains_key(k) <==> exists|i: int| 0 <= i < s.len() && s[i].name@ == k,
        forall|i: int|
            0 <= i < s.len() && s[i].name@ == k ==> signature_map(s)[k] == s[i].arity as nat,
    decreases s.len(),
{
    if s.len() > 0 {
        let p = s.drop_last();
        lemma_signature_map(p, k);
        assert forall|i: int| 0 <= i < p.len() implies p[i] == s[i] by {}
        if signature_map(s).contains_key(k) && k != s.last().name@ {
            let i = choose|i: int| 0 <= i < p.len() && p[i].name@ == k;
            assert(s[i].name@ == k);
        }
        if exists|i: int| 0 <= i < s.len() && s[i].name@ == k {
            let i = choose|i: int| 0 <= i < s.len() && s[i].name@ == k;
            if i < s.len() - 1 {
                assert(p[i].name@ == k);
            }
        }
    }
}

/// Replacing the arity of the entry at `idx` replaces it in the map.
proof fn lemma_signature_map_update(s: Seq<Signature>, idx: int, sig: Signature)
    requires
        signature_names_distinct(s),
        0 <= idx < s.len(),
        sig.name@ == s[idx].name@,
    ensures
        signature_names_distinct(s.update(idx, sig)),
        signature_map(s.update(idx, sig)) == signature_map(s).insert(sig.name@, sig.arity as nat),
{
    let t = s.update(idx, sig);
    let m2 = signature_map(s).insert(sig.name@, sig.arity as nat);
    assert forall|i: int| 0 <= i < t.len() implies #[trigger] t[i].name@ == s[i].name@ by {}
    assert(signature_names_distinct(t)) by {
        assert forall|i: int, j: int| 0 <= i < j < t.len() implies t[i].name@ != t[j].name@ by {
            assert(t[i].name@ == s[i].name@ && t[j].name@ == s[j].name@);
        }
    }
    assert forall|k: Seq<char>| #[trigger] signature_map(t).contains_key(k) == m2.contains_key(k) by {
        lemma_signature_map(s, k);
        lemma_signature_map(t, k);
        if k != sig.name@ {
            if exists|i: int| 0 <= i < s.len() && s[i].name@ == k {
                let i = choose|i: int| 0 <= i < s.len() && s[i].name@ == k;
                assert(t[i].name@ == k);
            }
        } else {
            assert(t[idx].name@ == k);
        }
    }
    assert forall|k: Seq<char>| #[trigger] signature_map(t).contains_key(k) implies signature_map(
        t,
    )[k] == m2[k] by {
        lemma_signature_map(s, k);
        lemma_signature_map(t, k);
        let i = choose|i: int| 0 <= i < t.len() && t[i].name@ == k;
        if k != sig.name@ {
            assert(i != idx);
            assert(s[i] == t[i]);
        } else {
            assert(t[idx].name@ == k);
        }
    }
    assert(signature_map(t) =~= m2);
}

impl View for FunctionTable {
    type V = Map<Seq<char>, nat>;

    closed spec fn view(&self) -> Map<Seq<char>, nat> {
        signature_map(self.entries@)
    }
}

impl FunctionTable {
    pub closed spec fn wf(&self) -> bool {
        signature_names_distinct(self.entries@)
    }

    pub fn new() -> (t: FunctionTable)
        ensures
            t.wf(),
            t@ == Map::<Seq<char>, nat>::empty(),
    {
        FunctionTable { entries: Vec::new() }
    }

    fn find(&self, name: &String) -> (r: Option<usize>)
        requires
            self.wf(),
        ensures
            r is None <==> !self@.contains_key(name@),
            r matches Some(i) ==> i < self.entries@.len() && self.entries@[i as int].name@ == name@,
    {
        proof {
            lemma_signature_map(self.entries@, name@);
        }
        let mut i: usize = 0;
        while i < self.entries.len()
            invariant
                self.wf(),
                0 <= i <= self.entries@.len(),
                forall|j: int| 0 <= j < i ==> self.entries@[j].name@ != name@,
            decreases self.entries@.len() - i,
        {
            if self.entries[i].name == *name {
                proof {
                    lemma_signature_map(self.entries@, name@);
                }
                return Some(i);
            }
            i = i + 1;
        }
        proof {
            lemma_signature_map(self.entries@, name@);
        }
        None
    }

    /// Declares `name` with `arity` parameters, replacing an earlier
    /// declaration of the name.
    pub fn insert(&mut self, name: String, arity: usize)
        requires
            old(self).wf(),
        ensures
            final(self).wf(),
            final(self)@ == old(self)@.insert(name@, arity as nat),
    {
        match self.find(&name) {
            Some(i) => {
                proof {
                    lemma_signature_map_update(self.entries@, i as int, Signature { name, arity });
                }
                self.entries.set(i, Signature { name, arity });
            },
            None => {
                let ghost prev = self.entries@;
                let ghost key = name@;
                proof {
                    assert forall|i: int| 0 <= i < prev.len() implies prev[i].name@ != key by {
                        lemma_signature_map(prev, key);
                    }
                }
                self.entries.push(Signature { name, arity });
                assert(self.entries@.drop_last() == prev);
            },
        }
    }

    /// The number of parameters of the function declared as `name`.
    pub fn arity(&self, name: &String) -> (r: Option<usize>)
        requires
            self.wf(),
        ensures
            r is None <==> !self@.contains_key(name@),
            r matches Some(n) ==> self@[name@] == n as nat,
    {
        match self.find(name) {
            Some(i) => {
                proof {
                    lemma_signature_map(self.entries@, name@);
                }
                Some(self.entries[i].arity)
            },
            None => None,
        }
    }
}

} // verus!
