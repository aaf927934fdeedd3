//! Names of the target language for the identifiers of a C translation unit: a stack
//! of lexical scopes, and names that are never given out twice.

use crate::names::{is_identifier, suffixed, suffixed_name};
use crate::names::{lemma_suffixed_identifier, lemma_suffixed_injective};
use crate::target::strings_view;
use vstd::prelude::*;
use vstd::seq_lib::seq_to_set_is_finite;
use vstd::set_lib::lemma_len_subset;

verus! {

/// The mathematical model of a [`Renamer`].
pub struct RenamerV {
    /// The scopes, outermost first: each maps C identifiers to names of the target.
    pub scopes: Seq<Map<Seq<char>, Seq<char>>>,
    /// The words that no name may equal.
    pub reserved: Set<Seq<char>>,
    /// Every name given out so far, in the order in which they were given out.
    pub issued: Seq<Seq<char>>,
}

/// The hint from which the names of temporaries are derived.
pub open spec fn fresh_hint() -> Seq<char> {
    "fresh"@
}

/// Lexical lookup: the binding of `name` in the innermost scope that has one.
pub open spec fn lookup_in(scopes: Seq<Map<Seq<char>, Seq<char>>>, name: Seq<char>) -> Option<
    Seq<char>,
>
    decreases scopes.len(),
{
    if scopes.len() == 0 {
        None
    } else if scopes.last().contains_key(name) {
        Some(scopes.last()[name])
    } else {
        lookup_in(scopes.drop_last(), name)
    }
}

impl RenamerV {
    /// There is a scope; no name was given out twice; no name given out is reserved;
    /// every name that a scope binds was given out.
    pub open spec fn wf(self) -> bool {
        &&& self.scopes.len() >= 1
        &&& self.reserved.finite()
        &&& self.issued.no_duplicates()
        &&& forall|i: int|
            0 <= i < self.issued.len() ==> !self.reserved.contains(#[trigger] self.issued[i])
        &&& forall|i: int, c: Seq<char>|
            0 <= i < self.scopes.len() && #[trigger] self.scopes[i].contains_key(c)
                ==> self.issued.contains(self.scopes[i][c])
    }

    /// Whether `name` may no longer be chosen.
    pub open spec fn taken(self, name: Seq<char>) -> bool {
        self.reserved.contains(name) || self.issued.contains(name)
    }

    /// Whether candidate `k` for `hint` is the first that is not taken.
    pub open spec fn is_choice(self, hint: Seq<char>, k: nat) -> bool {
        &&& !self.taken(suffixed(hint, k))
        &&& forall|j: nat| j < k ==> self.taken(#[trigger] suffixed(hint, j))
    }

    /// The name chosen for `hint`: the first of `hint`, `hint_1`, `hint_2`, ... that
    /// is not taken.
    pub open spec fn choice(self, hint: Seq<char>) -> Seq<char> {
        suffixed(hint, choose|k: nat| self.is_choice(hint, k))
    }

    /// Whether the innermost scope binds `c_name`.
    pub open spec fn bound_here(self, c_name: Seq<char>) -> bool {
        self.scopes.len() > 0 && self.scopes.last().contains_key(c_name)
    }

    /// The name that `c_name` stands for here, innermost scope first.
    pub open spec fn lookup(self, c_name: Seq<char>) -> Option<Seq<char>> {
        lookup_in(self.scopes, c_name)
    }

    /// Whether some scope binds an identifier to `name`.
    pub open spec fn live(self, name: Seq<char>) -> bool {
        exists|i: int, c: Seq<char>|
            0 <= i < self.scopes.len() && #[trigger] self.scopes[i].contains_key(c)
                && self.scopes[i][c] == name
    }

    /// With an empty scope pushed.
    pub open spec fn add_scope(self) -> RenamerV {
        RenamerV { scopes: self.scopes.push(Map::empty()), ..self }
    }

    /// With the innermost scope popped.
    pub open spec fn drop_scope(self) -> RenamerV {
        RenamerV { scopes: self.scopes.drop_last(), ..self }
    }

    /// With `name` given out and bound to nothing.
    pub open spec fn issue(self, name: Seq<char>) -> RenamerV {
        RenamerV { issued: self.issued.push(name), ..self }
    }

    /// With `name` given out and bound to `c_name` in the innermost scope.
    pub open spec fn bind(self, c_name: Seq<char>, name: Seq<char>) -> RenamerV {
        RenamerV {
            scopes: self.scopes.update(
                self.scopes.len() - 1,
                self.scopes.last().insert(c_name, name),
            ),
            issued: self.issued.push(name),
            ..self
        }
    }

    /// With the name chosen for `hint` bound to `c_name` in the innermost scope.
    pub open spec fn insert(self, c_name: Seq<char>, hint: Seq<char>) -> RenamerV {
        self.bind(c_name, self.choice(hint))
    }

    /// With a name for a temporary given out.
    pub open spec fn fresh(self) -> RenamerV {
        self.issue(self.choice(fresh_hint()))
    }
}

/// Candidates `0` to `k` for a hint are `k + 1` different names: a finite set that
/// holds them all has more than `k` elements.
pub proof fn lemma_candidates_fill(used: Set<Seq<char>>, hint: Seq<char>, k: nat)
    requires
        used.finite(),
        forall|j: nat| j <= k ==> used.contains(#[trigger] suffixed(hint, j)),
    ensures
        k < used.len(),
{
    let tried = Seq::new(k + 1, |j: int| suffixed(hint, j as nat));
    assert forall|i: int, j: int| 0 <= i < tried.len() && 0 <= j < tried.len() && i != j implies tried[i]
        != tried[j] by {
        if tried[i] == tried[j] {
            lemma_suffixed_injective(hint, i as nat, j as nat);
        }
    }
    tried.unique_seq_to_set();
    assert forall|name: Seq<char>| tried.to_set().contains(name) implies used.contains(name) by {
        let i = choose|i: int| 0 <= i < tried.len() && tried[i] == name;
        assert(used.contains(suffixed(hint, i as nat)));
    }
    lemma_len_subset(tried.to_set(), used);
}

/// Below a candidate that is not taken there is a first one that is not.
proof fn lemma_first_free(r: RenamerV, hint: Seq<char>, k: nat)
    requires
        !r.taken(suffixed(hint, k)),
    ensures
        exists|j: nat| r.is_choice(hint, j),
    decreases k,
{
    if r.is_choice(hint, k) {
    } else {
        let j = choose|j: nat| j < k && !r.taken(#[trigger] suffixed(hint, j));
        lemma_first_free(r, hint, j);
    }
}

/// For every hint a name is chosen, and it is not taken.
pub proof fn lemma_choice_free(r: RenamerV, hint: Seq<char>)
    requires
        r.reserved.finite(),
    ensures
        r.is_choice(hint, choose|k: nat| r.is_choice(hint, k)),
        !r.taken(r.choice(hint)),
{
    broadcast use seq_to_set_is_finite;

    let used = r.reserved + r.issued.to_set();
    let n = used.len();
    if forall|j: nat| j <= n ==> r.taken(#[trigger] suffixed(hint, j)) {
        assert forall|j: nat| j <= n implies used.contains(#[trigger] suffixed(hint, j)) by {
            assert(r.taken(suffixed(hint, j)));
        }
        lemma_candidates_fill(used, hint, n);
    }
    let k = choose|j: nat| j <= n && !r.taken(#[trigger] suffixed(hint, j));
    lemma_first_free(r, hint, k);
}

/// The first candidate that is not taken is the name chosen.
pub proof fn lemma_choice_is(r: RenamerV, hint: Seq<char>, k: nat)
    requires
        r.is_choice(hint, k),
    ensures
        r.choice(hint) == suffixed(hint, k),
{
    let c = choose|j: nat| r.is_choice(hint, j);
    assert(r.is_choice(hint, c));
    if c < k {
        assert(r.taken(suffixed(hint, c)));
    } else if k < c {
        assert(r.taken(suffixed(hint, k)));
    }
}

/// The name chosen for a hint that is an identifier is an identifier.
pub proof fn lemma_choice_identifier(r: RenamerV, hint: Seq<char>)
    requires
        is_identifier(hint),
    ensures
        is_identifier(r.choice(hint)),
{
    lemma_suffixed_identifier(hint, choose|k: nat| r.is_choice(hint, k));
}

/// Giving out a name that is not taken keeps the model well formed.
pub proof fn lemma_issue_wf(r: RenamerV, name: Seq<char>)
    requires
        r.wf(),
        !r.taken(name),
    ensures
        r.issue(name).wf(),
{
    let s = r.issue(name);
    assert forall|i: int, c: Seq<char>|
        0 <= i < s.scopes.len() && #[trigger] s.scopes[i].contains_key(c) implies s.issued.contains(
        s.scopes[i][c],
    ) by {
        let j = choose|j: int| 0 <= j < r.issued.len() && r.issued[j] == r.scopes[i][c];
        assert(s.issued[j] == s.scopes[i][c]);
    }
}

/// Binding a name that is not taken keeps the model well formed.
pub proof fn lemma_bind_wf(r: RenamerV, c_name: Seq<char>, name: Seq<char>)
    requires
        r.wf(),
        !r.taken(name),
    ensures
        r.bind(c_name, name).wf(),
{
    let s = r.bind(c_name, name);
    let top = r.scopes.len() - 1;
    assert(s.issued[r.issued.len() as int] == name);
    assert forall|i: int, c: Seq<char>|
        0 <= i < s.scopes.len() && #[trigger] s.scopes[i].contains_key(c) implies s.issued.contains(
        s.scopes[i][c],
    ) by {
        if i == top && c == c_name {
        } else {
            assert(r.scopes[i].contains_key(c));
            let j = choose|j: int| 0 <= j < r.issued.len() && r.issued[j] == r.scopes[i][c];
            assert(s.issued[j] == s.scopes[i][c]);
        }
    }
}

/// The four steps keep the model well formed.
pub proof fn lemma_steps_wf(r: RenamerV, c_name: Seq<char>, hint: Seq<char>)
    requires
        r.wf(),
    ensures
        r.add_scope().wf(),
        r.scopes.len() > 1 ==> r.drop_scope().wf(),
        r.insert(c_name, hint).wf(),
        r.fresh().wf(),
{
    lemma_choice_free(r, hint);
    lemma_choice_free(r, fresh_hint());
    lemma_bind_wf(r, c_name, r.choice(hint));
    lemma_issue_wf(r, r.choice(fresh_hint()));
    let a = r.add_scope();
    assert forall|i: int, c: Seq<char>|
        0 <= i < a.scopes.len() && #[trigger] a.scopes[i].contains_key(c) implies a.issued.contains(
        a.scopes[i][c],
    ) by {
        assert(r.scopes[i].contains_key(c));
    }
    if r.scopes.len() > 1 {
        let d = r.drop_scope();
        assert forall|i: int, c: Seq<char>|
            0 <= i < d.scopes.len() && #[trigger] d.scopes[i].contains_key(c) implies d.issued.contains(
            d.scopes[i][c],
        ) by {
            assert(r.scopes[i].contains_key(c));
        }
    }
}

/// All names that a well-formed renamer has given out are pairwise distinct.
pub proof fn lemma_issued_distinct(r: RenamerV, i: int, j: int)
    requires
        r.wf(),
        0 <= i < r.issued.len(),
        0 <= j < r.issued.len(),
        i != j,
    ensures
        r.issued[i] != r.issued[j],
{
}

/// The bindings of one scope, oldest first; a later binding of a key hides an earlier
/// one.
pub closed spec fn scope_map(bindings: Seq<(String, String)>) -> Map<Seq<char>, Seq<char>>
    decreases bindings.len(),
{
    if bindings.len() == 0 {
        Map::empty()
    } else {
        scope_map(bindings.drop_last()).insert(bindings.last().0@, bindings.last().1@)
    }
}

/// The binding of `key` in one scope.
fn scope_get<'a>(bindings: &'a Vec<(String, String)>, key: &String) -> (r: Option<&'a String>)
    ensures
        match r {
            Some(name) => scope_map(bindings@).contains_key(key@) && scope_map(bindings@)[key@]
                == name@,
            None => !scope_map(bindings@).contains_key(key@),
        },
{
    let mut i: usize = bindings.len();
    assert(bindings@.subrange(0, i as int) =~= bindings@);
    while i > 0
        invariant
            0 <= i <= bindings.len(),
            scope_map(bindings@).contains_key(key@) == scope_map(
                bindings@.subrange(0, i as int),
            ).contains_key(key@),
            scope_map(bindings@).contains_key(key@) ==> scope_map(bindings@)[key@] == scope_map(
                bindings@.subrange(0, i as int),
            )[key@],
        decreases i,
    {
        i = i - 1;
        proof {
            let upto = bindings@.subrange(0, i + 1);
            assert(upto.drop_last() =~= bindings@.subrange(0, i as int));
            assert(upto.last() == bindings@[i as int]);
        }
        if bindings[i].0 == *key {
            return Some(&bindings[i].1);
        }
    }
    None
}

/// Gives every C identifier a name of the target language.
pub struct Renamer {
    /// The scopes, outermost first.
    scopes: Vec<Vec<(String, String)>>,
    /// The reserved words, and after them every name given out, in order.
    taken: Vec<String>,
    /// How many of `taken` are reserved words.
    reserved_len: usize,
}

impl Renamer {
    pub closed spec fn view(&self) -> RenamerV {
        RenamerV {
            scopes: Seq::new(self.scopes@.len(), |i: int| scope_map(self.scopes@[i]@)),
            reserved: strings_view(self.taken@).subrange(0, self.reserved_len as int).to_set(),
            issued: strings_view(self.taken@).subrange(
                self.reserved_len as int,
                self.taken@.len() as int,
            ),
        }
    }

    /// The invariant of the type. It implies that of the model.
    pub closed spec fn wf(&self) -> bool {
        &&& self.reserved_len <= self.taken@.len()
        &&& self@.wf()
    }

    /// A well-formed renamer has a well-formed model.
    pub proof fn lemma_wf(&self)
        requires
            self.wf(),
        ensures
            self@.wf(),
    {
    }

    /// A name is taken exactly if `taken` holds it.
    proof fn lemma_taken(&self, name: Seq<char>)
        requires
            self.reserved_len <= self.taken@.len(),
        ensures
            self@.taken(name) <==> strings_view(self.taken@).contains(name),
            self@.reserved + self@.issued.to_set() =~= strings_view(self.taken@).to_set(),
    {
        let all = strings_view(self.taken@);
        let split = self.reserved_len as int;
        let low = all.subrange(0, split);
        let high = all.subrange(split, all.len() as int);
        assert(all =~= low + high);
        assert forall|x: Seq<char>| all.contains(x) <==> low.contains(x) || high.contains(
            x,
        ) by {
            if all.contains(x) {
                let i = choose|i: int| 0 <= i < all.len() && all[i] == x;
                if i < split {
                    assert(low[i] == x);
                } else {
                    assert(high[i - split] == x);
                }
            }
            if low.contains(x) {
                let i = choose|i: int| 0 <= i < low.len() && low[i] == x;
                assert(all[i] == x);
            }
            if high.contains(x) {
                let i = choose|i: int| 0 <= i < high.len() && high[i] == x;
                assert(all[i + split] == x);
            }
        }
    }

    /// A renamer with one empty scope and the given reserved words.
    pub fn new(reserved: Vec<String>) -> (r: Renamer)
        ensures
            r.wf(),
            r@ == (RenamerV {
                scopes: seq![Map::empty()],
                reserved: strings_view(reserved@).to_set(),
                issued: Seq::empty(),
            }),
    {
        broadcast use seq_to_set_is_finite;

        let mut scopes: Vec<Vec<(String, String)>> = Vec::new();
        scopes.push(Vec::new());
        let reserved_len = reserved.len();
        let r = Renamer { scopes, taken: reserved, reserved_len };
        proof {
            assert(r@.scopes =~= seq![Map::empty()]);
            assert(strings_view(reserved@).subrange(0, reserved_len as int) =~= strings_view(
                reserved@,
            ));
            assert(r@.issued =~= Seq::empty());
        }
        r
    }

    /// How many scopes are open.
    pub fn depth(&self) -> (d: usize)
        ensures
            d == self@.scopes.len(),
    {
        self.scopes.len()
    }

    /// Opens a scope.
    pub fn add_scope(&mut self)
        requires
            old(self).wf(),
        ensures
            final(self).wf(),
            final(self)@ == old(self)@.add_scope(),
            final(self)@.scopes.len() == old(self)@.scopes.len() + 1,
            final(self)@.scopes.len() > 1,
    {
        self.scopes.push(Vec::new());
        proof {
            assert(self@.scopes =~= old(self)@.scopes.push(Map::empty()));
            lemma_steps_wf(old(self)@, Seq::empty(), Seq::empty());
        }
    }

    /// Closes the innermost scope. The outermost scope stays open for good.
    pub fn drop_scope(&mut self)
        requires
            old(self).wf(),
            old(self)@.scopes.len() > 1,
        ensures
            final(self).wf(),
            final(self)@ == old(self)@.drop_scope(),
            final(self)@.scopes.len() == old(self)@.scopes.len() - 1,
    {
        self.scopes.pop();
        proof {
            assert(self@.scopes =~= old(self)@.scopes.drop_last());
            lemma_steps_wf(old(self)@, Seq::empty(), Seq::empty());
        }
    }

    /// Whether `name` is reserved or was given out.
    fn is_taken(&self, name: &String) -> (r: bool)
        requires
            self.reserved_len <= self.taken@.len(),
        ensures
            r == self@.taken(name@),
    {
        proof {
            self.lemma_taken(name@);
        }
        let mut i: usize = 0;
        while i < self.taken.len()
            invariant
                0 <= i <= self.taken.len(),
                self@.taken(name@) <==> strings_view(self.taken@).contains(name@),
                forall|j: int| 0 <= j < i ==> strings_view(self.taken@)[j] != name@,
            decreases self.taken.len() - i,
        {
            if self.taken[i] == *name {
                assert(strings_view(self.taken@)[i as int] == name@);
                return true;
            }
            i = i + 1;
        }
        false
    }

    /// The name chosen for `hint`.
    fn choose_name(&self, hint: &str) -> (name: String)
        requires
            self.wf(),
        ensures
            name@ == self@.choice(hint@),
            !self@.taken(name@),
    {
        broadcast use seq_to_set_is_finite;

        let mut k: usize = 0;
        let mut candidate = suffixed_name(hint, 0);
        loop
            invariant
                self.wf(),
                k <= self.taken.len(),
                candidate@ == suffixed(hint@, k as nat),
                forall|j: nat| j < k ==> self@.taken(#[trigger] suffixed(hint@, j)),
            decreases self.taken.len() - k,
        {
            if !self.is_taken(&candidate) {
                proof {
                    lemma_choice_is(self@, hint@, k as nat);
                }
                return candidate;
            }
            proof {
                let all = strings_view(self.taken@);
                self.lemma_taken(hint@);
                assert forall|j: nat| j <= k implies all.to_set().contains(
                    #[trigger] suffixed(hint@, j),
                ) by {
                    assert(self@.taken(suffixed(hint@, j)));
                    self.lemma_taken(suffixed(hint@, j));
                }
                lemma_candidates_fill(all.to_set(), hint@, k as nat);
                all.lemma_cardinality_of_set();
            }
            k = k + 1;
            candidate = suffixed_name(hint, k);
        }
    }

    /// Records `name` as given out.
    fn record(&mut self, name: String)
        requires
            old(self).reserved_len <= old(self).taken@.len(),
        ensures
            final(self).reserved_len <= final(self).taken@.len(),
            final(self)@ == old(self)@.issue(name@),
            final(self)@.issued.contains(name@),
    {
        self.taken.push(name);
        proof {
            let before = strings_view(old(self).taken@);
            let after = strings_view(self.taken@);
            let split = self.reserved_len as int;
            assert(after =~= before.push(name@));
            assert(after.subrange(0, split) =~= before.subrange(0, split));
            assert(self@.issued =~= old(self)@.issued.push(name@));
            assert(self@.issued[old(self)@.issued.len() as int] == name@);
            assert(self@.scopes =~= old(self)@.scopes);
        }
    }

    /// Binds `c_name` in the innermost scope to the name chosen for `hint`, and returns
    /// that name; nothing, and no change, where the innermost scope binds `c_name`
    /// already.
    pub fn insert(&mut self, c_name: String, hint: &str) -> (r: Option<String>)
        requires
            old(self).wf(),
        ensures
            final(self).wf(),
            final(self)@.scopes.len() == old(self)@.scopes.len(),
            match r {
                None => old(self)@.bound_here(c_name@) && final(self)@ == old(self)@,
                Some(name) => {
                    &&& !old(self)@.bound_here(c_name@)
                    &&& name@ == old(self)@.choice(hint@)
                    &&& !old(self)@.taken(name@)
                    &&& final(self)@.issued.contains(name@)
                    &&& is_identifier(hint@) ==> is_identifier(name@)
                    &&& final(self)@ == old(self)@.insert(c_name@, hint@)
                },
            },
    {
        let depth = self.scopes.len();
        if scope_get(&self.scopes[depth - 1], &c_name).is_some() {
            return None;
        }
        let name = self.choose_name(hint);
        let bound = name.clone();
        let mut top = match self.scopes.pop() {
            Some(t) => t,
            None => Vec::new(),
        };
        let ghost top_before = top@;
        top.push((c_name, bound));
        self.scopes.push(top);
        proof {
            assert(top@.drop_last() =~= top_before);
            assert(self@.scopes =~= old(self)@.scopes.update(
                depth - 1,
                old(self)@.scopes.last().insert(c_name@, name@),
            ));
        }
        let ghost mid = *self;
        self.record(name.clone());
        proof {
            assert(mid@.issued == old(self)@.issued);
            assert(mid@.reserved == old(self)@.reserved);
            assert(self@ == old(self)@.bind(c_name@, name@));
            lemma_bind_wf(old(self)@, c_name@, name@);
            if is_identifier(hint@) {
                lemma_choice_identifier(old(self)@, hint@);
            }
        }
        Some(name)
    }

    /// The name that `c_name` stands for: the binding in the innermost scope that has
    /// one.
    pub fn get(&self, c_name: &str) -> (r: Option<String>)
        ensures
            match r {
                Some(name) => self@.lookup(c_name@) == Some(name@),
                None => self@.lookup(c_name@).is_none(),
            },
    {
        let key = c_name.to_owned();
        let mut i: usize = self.scopes.len();
        assert(self@.scopes.subrange(0, i as int) =~= self@.scopes);
        while i > 0
            invariant
                0 <= i <= self.scopes.len(),
                key@ == c_name@,
                self@.lookup(c_name@) == lookup_in(self@.scopes.subrange(0, i as int), c_name@),
            decreases i,
        {
            i = i - 1;
            proof {
                let upto = self@.scopes.subrange(0, i + 1);
                assert(upto.drop_last() =~= self@.scopes.subrange(0, i as int));
                assert(upto.last() == scope_map(self.scopes@[i as int]@));
            }
            match scope_get(&self.scopes[i], &key) {
                Some(name) => {
                    return Some(name.clone());
                },
                None => {},
            }
        }
        None
    }

    /// A name for a temporary: bound to no C identifier, and given out like any other.
    pub fn fresh(&mut self) -> (name: String)
        requires
            old(self).wf(),
        ensures
            final(self).wf(),
            name@ == old(self)@.choice(fresh_hint()),
            !old(self)@.taken(name@),
            final(self)@.issued.contains(name@),
            is_identifier(name@),
            final(self)@ == old(self)@.fresh(),
            final(self)@.scopes == old(self)@.scopes,
    {
        let name = self.choose_name("fresh");
        self.record(name.clone());
        proof {
            lemma_issue_wf(old(self)@, name@);
            reveal_strlit("fresh");
            assert(is_identifier(fresh_hint()));
            lemma_choice_identifier(old(self)@, fresh_hint());
        }
        name
    }
}

} // verus!
