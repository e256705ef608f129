//! The result of parsing one command line: positional arguments and the
//! values of the flags that were supplied.
use vstd::prelude::*;
use crate::text::same_text;

verus! {

/// What a supplied flag resolved to.
pub enum FlagRes {
    /// An input flag, with the token that followed it.
    Input(String),
    /// An option flag, present without a value.
    Opt,
}

impl FlagRes {
    /// The text an input flag carries; nothing for an option flag.
    pub open spec fn value(&self) -> Option<Seq<char>> {
        match self {
            FlagRes::Input(s) => Some(s@),
            FlagRes::Opt => None,
        }
    }
}

/// The text of an optional string.
pub open spec fn text_of(o: Option<String>) -> Option<Seq<char>> {
    match o {
        Some(s) => Some(s@),
        None => None,
    }
}

/// The value recorded under key `k` by the earliest entry that has it.
pub open spec fn lookup(entries: Seq<(&'static str, FlagRes)>, k: Seq<char>) -> Option<
    Option<Seq<char>>,
>
    decreases entries.len(),
{
    if entries.len() == 0 {
        None
    } else {
        match lookup(entries.drop_last(), k) {
            Some(v) => Some(v),
            None => if entries.last().0@ == k {
                Some(entries.last().1.value())
            } else {
                None
            },
        }
    }
}

proof fn lemma_lookup_prefix(s: Seq<(&'static str, FlagRes)>, i: int, k: Seq<char>)
    requires
        0 <= i <= s.len(),
        lookup(s.subrange(0, i), k) is Some,
    ensures
        lookup(s, k) == lookup(s.subrange(0, i), k),
    decreases s.len(),
{
    if i == s.len() {
        assert(s.subrange(0, i) =~= s);
    } else {
        assert(s.drop_last().subrange(0, i) =~= s.subrange(0, i));
        lemma_lookup_prefix(s.drop_last(), i, k);
    }
}

proof fn lemma_lookup_absent(s: Seq<(&'static str, FlagRes)>, i: int, k: Seq<char>)
    requires
        0 <= i <= s.len(),
        forall|j: int| 0 <= j < i ==> s[j].0@ != k,
    ensures
        lookup(s.subrange(0, i), k) is None,
    decreases i,
{
    if i > 0 {
        assert(s.subrange(0, i).drop_last() =~= s.subrange(0, i - 1));
        lemma_lookup_absent(s, i - 1, k);
    }
}

proof fn lemma_lookup_update(
    s: Seq<(&'static str, FlagRes)>,
    i: int,
    e: (&'static str, FlagRes),
    k2: Seq<char>,
)
    requires
        0 <= i < s.len(),
        s[i].0@ == e.0@,
        forall|j: int| 0 <= j < i ==> s[j].0@ != e.0@,
    ensures
        lookup(s.update(i, e), k2) == if k2 == e.0@ {
            Some(e.1.value())
        } else {
            lookup(s, k2)
        },
    decreases s.len(),
{
    let t = s.update(i, e);
    if i == s.len() - 1 {
        assert(t.drop_last() =~= s.drop_last());
        assert(s.subrange(0, i) =~= s.drop_last());
        lemma_lookup_absent(s, i, e.0@);
    } else {
        assert(t.drop_last() =~= s.drop_last().update(i, e));
        lemma_lookup_update(s.drop_last(), i, e, k2);
    }
}

/// The positional arguments and flag values gathered for one invocation.
pub struct Context {
    /// Tokens that did not start a flag, in the order they came.
    pub arg: Vec<String>,
    /// The supplied flags with their values; the earliest entry under an
    /// identity is the one that counts.
    pub flagmap: Vec<(&'static str, FlagRes)>,
    /// Whether the default command runs because no command was named.
    pub is_default: bool,
}

impl Context {
    /// The supplied flags: each identity maps to its value (`None` for an
    /// option flag).
    pub open spec fn flag_map(&self) -> Map<Seq<char>, Option<Seq<char>>> {
        Map::new(
            |k: Seq<char>| lookup(self.flagmap@, k) is Some,
            |k: Seq<char>| lookup(self.flagmap@, k)->0,
        )
    }

    /// The positional arguments as text.
    pub open spec fn positional(&self) -> Seq<Seq<char>> {
        self.arg@.map_values(|s: String| s@)
    }

    /// The value of the input flag `k`, if it was supplied.
    pub open spec fn value_of(&self, k: Seq<char>) -> Option<Seq<char>> {
        if self.flag_map().contains_key(k) {
            self.flag_map()[k]
        } else {
            None
        }
    }

    pub fn new() -> (r: Context)
        ensures
            r.arg@.len() == 0,
            r.flag_map() == Map::<Seq<char>, Option<Seq<char>>>::empty(),
            !r.is_default,
    {
        let r = Context { arg: Vec::new(), flagmap: Vec::new(), is_default: false };
        assert(r.flag_map() =~= Map::<Seq<char>, Option<Seq<char>>>::empty());
        r
    }

    /// The position of the earliest entry under `ident`.
    fn find(&self, ident: &str) -> (r: Option<usize>)
        ensures
            match r {
                Some(i) => {
                    &&& i < self.flagmap@.len()
                    &&& self.flagmap@[i as int].0@ == ident@
                    &&& forall|j: int| 0 <= j < i ==> self.flagmap@[j].0@ != ident@
                    &&& lookup(self.flagmap@, ident@) == Some(self.flagmap@[i as int].1.value())
                },
                None => lookup(self.flagmap@, ident@) is None,
            },
    {
        let ghost s = self.flagmap@;
        let mut i: usize = 0;
        while i < self.flagmap.len()
            invariant
                s == self.flagmap@,
                i <= s.len(),
                forall|j: int| 0 <= j < i ==> s[j].0@ != ident@,
            decreases s.len() - i,
        {
            if same_text(self.flagmap[i].0, ident) {
                proof {
                    lemma_lookup_absent(s, i as int, ident@);
                    assert(s.subrange(0, i + 1).drop_last() =~= s.subrange(0, i as int));
                    lemma_lookup_prefix(s, i + 1, ident@);
                }
                return Some(i);
            }
            i = i + 1;
        }
        proof {
            lemma_lookup_absent(s, i as int, ident@);
            assert(s.subrange(0, i as int) =~= s);
        }
        None
    }

    /// Whether the flag `ident` was supplied.
    pub fn is_set(&self, ident: &str) -> (r: bool)
        ensures
            r == self.flag_map().contains_key(ident@),
    {
        self.find(ident).is_some()
    }

    /// The value of the input flag `ident`; `None` for an option flag or an
    /// absent one.
    pub fn get(&self, ident: &str) -> (r: Option<String>)
        ensures
            text_of(r) == self.value_of(ident@),
    {
        match self.find(ident) {
            Some(i) => match &self.flagmap[i].1 {
                FlagRes::Input(content) => Some(content.clone()),
                FlagRes::Opt => None,
            },
            None => None,
        }
    }

    /// Records `f` under `k`, replacing what was there; returns the value it
    /// replaced.
    pub fn push(&mut self, k: &'static str, f: FlagRes) -> (r: Option<FlagRes>)
        ensures
            final(self).flag_map() == old(self).flag_map().insert(k@, f.value()),
            final(self).arg == old(self).arg,
            final(self).is_default == old(self).is_default,
            match r {
                Some(p) => old(self).flag_map().contains_key(k@) && old(self).flag_map()[k@]
                    == p.value(),
                None => !old(self).flag_map().contains_key(k@),
            },
    {
        let ghost s = self.flagmap@;
        let ghost fv = f.value();
        match self.find(k) {
            Some(i) => {
                let prev = self.flagmap.remove(i);
                self.flagmap.insert(i, (k, f));
                proof {
                    assert(self.flagmap@ =~= s.update(i as int, (k, f)));
                    assert forall|k2: Seq<char>|
                        lookup(self.flagmap@, k2) == if k2 == k@ {
                            Some(fv)
                        } else {
                            lookup(s, k2)
                        } by {
                        lemma_lookup_update(s, i as int, (k, f), k2);
                    }
                    assert(self.flag_map() =~= old(self).flag_map().insert(k@, fv));
                }
                Some(prev.1)
            },
            None => {
                self.flagmap.push((k, f));
                proof {
                    assert(self.flagmap@.drop_last() =~= s);
                    assert(self.flag_map() =~= old(self).flag_map().insert(k@, fv));
                }
                None
            },
        }
    }
}

} // verus!
