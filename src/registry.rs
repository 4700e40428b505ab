//! Class records and the registry that maps type identities to them, with
//! the ancestry queries that walk recorded parent links.

use std::any::TypeId;
use vstd::prelude::*;
use vstd::relations::injective_on;
use vstd::set_lib::{lemma_int_range, lemma_len_subset, lemma_map_size, set_int_range};
use crate::reflection::{FieldView, MethodView, ReflectionData};
use crate::table::{entry_for, has_key, lemma_entry_at, lemma_upsert, unique_keys, upsert};

verus! {

/// Relies on `uuid::Uuid::new_v4`, read out with `Uuid::as_u128`: a random
/// version-4 identifier, whose version field is 4 and whose variant bits are
/// `10`.
#[verifier::external_body]
fn fresh_record_id() -> (r: u128)
    ensures
        (r >> 76u128) & 0xfu128 == 4,
        (r >> 62u128) & 3u128 == 2,
{
    uuid::Uuid::new_v4().as_u128()
}

/// The model of a class record.
pub struct ClassView {
    pub id: u128,
    pub name: Seq<char>,
    pub parent: Option<TypeId>,
    pub type_id: TypeId,
    pub fields: Seq<FieldView>,
    pub methods: Seq<MethodView>,
}

/// The metadata of one class: a fresh record identifier, a display name, the
/// identity of its declared parent, its own identity and its reflection
/// table.
pub struct ClassInfo {
    pub id: u128,
    pub name: String,
    pub parent: Option<TypeId>,
    pub type_id: TypeId,
    pub reflection_data: ReflectionData,
}

impl View for ClassInfo {
    type V = ClassView;

    open spec fn view(&self) -> ClassView {
        ClassView {
            id: self.id,
            name: self.name@,
            parent: self.parent,
            type_id: self.type_id,
            fields: self.reflection_data.fields_view(),
            methods: self.reflection_data.methods_view(),
        }
    }
}

impl ClassInfo {
    /// A record for the class `name` with identity `type_id` and the given
    /// parent, an empty reflection table and a freshly minted identifier.
    pub fn new(name: &str, parent: Option<TypeId>, type_id: TypeId) -> (r: ClassInfo)
        ensures
            r.name@ == name@,
            r.parent == parent,
            r.type_id == type_id,
            r.reflection_data.wf(),
            r.reflection_data.fields_view().len() == 0,
            r.reflection_data.methods_view().len() == 0,
            (r.id >> 76u128) & 0xfu128 == 4,
            (r.id >> 62u128) & 3u128 == 2,
    {
        ClassInfo {
            id: fresh_record_id(),
            name: name.to_owned(),
            parent,
            type_id,
            reflection_data: ReflectionData::new::<ClassInfo>(),
        }
    }
}

impl Clone for ClassInfo {
    fn clone(&self) -> (r: Self)
        ensures
            r@ == self@,
    {
        ClassInfo {
            id: self.id,
            name: self.name.clone(),
            parent: self.parent,
            type_id: self.type_id,
            reflection_data: self.reflection_data.clone(),
        }
    }
}

/// Class records are keyed by the identity of the type they describe.
pub open spec fn class_key() -> spec_fn(ClassView) -> TypeId {
    |c: ClassView| c.type_id
}

/// The recorded parent of `id`: absent when `id` is unregistered or a root.
pub open spec fn parent_in(s: Seq<ClassView>, id: TypeId) -> Option<TypeId> {
    match entry_for(s, class_key(), id) {
        Some(c) => c.parent,
        None => None,
    }
}

/// The type reached from `id` by following `k` recorded parent links.
pub open spec fn ancestor_at(s: Seq<ClassView>, id: TypeId, k: nat) -> Option<TypeId>
    decreases k,
{
    if k == 0 {
        Some(id)
    } else {
        match ancestor_at(s, id, (k - 1) as nat) {
            Some(x) => parent_in(s, x),
            None => None,
        }
    }
}

/// `ancestor` is reached from `child` by between one and `n` parent links.
pub open spec fn reaches_within(s: Seq<ClassView>, child: TypeId, ancestor: TypeId, n: nat) -> bool {
    exists|k: nat| 1 <= k <= n && ancestor_at(s, child, k) == Some(ancestor)
}

/// `ancestor` is on the parent chain of `child`, at any depth.
pub open spec fn is_ancestor(s: Seq<ClassView>, child: TypeId, ancestor: TypeId) -> bool {
    exists|k: nat| 1 <= k && ancestor_at(s, child, k) == Some(ancestor)
}

/// Once the chain breaks off it stays broken.
pub proof fn lemma_chain_ends(s: Seq<ClassView>, id: TypeId, k: nat, m: nat)
    requires
        ancestor_at(s, id, k) is None,
        k <= m,
    ensures
        ancestor_at(s, id, m) is None,
    decreases m - k,
{
    if k < m {
        lemma_chain_ends(s, id, k, (m - 1) as nat);
    }
}

/// Registering a record and then looking up its type identity yields that
/// record, whose own identity is the one looked up; and every lookup that
/// finds a record finds one of the identity asked for.
pub proof fn lemma_register_then_get(s: Seq<ClassView>, c: ClassView, id: TypeId)
    requires
        unique_keys(s, class_key()),
    ensures
        entry_for(upsert(s, class_key(), c), class_key(), c.type_id) == Some(c),
        entry_for(s, class_key(), id) matches Some(r) ==> r.type_id == id,
{
    lemma_upsert(s, class_key(), c);
}

/// Following `i` links and then `t` more is following `i + t` links.
proof fn lemma_chain_shift(s: Seq<ClassView>, c: TypeId, i: nat, t: nat)
    ensures
        ancestor_at(s, c, i + t) == match ancestor_at(s, c, i) {
            Some(x) => ancestor_at(s, x, t),
            None => None,
        },
    decreases t,
{
    if t > 0 {
        lemma_chain_shift(s, c, i, (t - 1) as nat);
        assert((i + t - 1) as nat == i + (t - 1) as nat);
    }
}

/// A chain that reaches `a` in more links than there are records revisits
/// some type, and so reaches `a` in fewer links.
proof fn lemma_shorter_chain(s: Seq<ClassView>, c: TypeId, a: TypeId, k: nat) -> (k2: nat)
    requires
        k > s.len(),
        ancestor_at(s, c, k) == Some(a),
    ensures
        1 <= k2 < k,
        ancestor_at(s, c, k2) == Some(a),
{
    let n = s.len() as int;
    assert forall|j: nat| j < k implies #[trigger] ancestor_at(s, c, j) is Some && has_key(
        s,
        class_key(),
        ancestor_at(s, c, j).unwrap(),
    ) by {
        if ancestor_at(s, c, j) is None {
            lemma_chain_ends(s, c, j, k);
        }
        if ancestor_at(s, c, (j + 1) as nat) is None {
            lemma_chain_ends(s, c, (j + 1) as nat, k);
        }
        assert(ancestor_at(s, c, (j + 1) as nat) == parent_in(s, ancestor_at(s, c, j).unwrap()));
    }
    let f = |j: int| choose|i: int| 0 <= i < n && s[i].type_id == ancestor_at(s, c, j as nat).unwrap();
    let xs = set_int_range(0, k as int);
    let ys = xs.map(f);
    lemma_int_range(0, k as int);
    lemma_int_range(0, n);
    assert(ys.subset_of(set_int_range(0, n))) by {
        assert forall|y: int| ys.contains(y) implies set_int_range(0, n).contains(y) by {
            let j = choose|j: int| xs.contains(j) && f(j) == y;
            assert(ancestor_at(s, c, j as nat) is Some);
        }
    }
    lemma_len_subset(ys, set_int_range(0, n));
    if injective_on(f, xs) {
        lemma_map_size(xs, ys, f);
        assert(false);
    }
    let (i, j) = choose|i: int, j: int| xs.contains(i) && xs.contains(j) && f(i) == f(j) && i != j;
    let (lo, hi) = if i < j { (i as nat, j as nat) } else { (j as nat, i as nat) };
    assert(ancestor_at(s, c, lo) is Some && ancestor_at(s, c, hi) is Some);
    assert(ancestor_at(s, c, lo) == ancestor_at(s, c, hi));
    let t = (k - hi) as nat;
    lemma_chain_shift(s, c, hi, t);
    lemma_chain_shift(s, c, lo, t);
    assert(hi + t == k);
    (lo + t) as nat
}

/// Reaching `a` from `c` at some depth: the walk bounded by the number of
/// records finds it too.
proof fn lemma_within_bound(s: Seq<ClassView>, c: TypeId, a: TypeId, k: nat)
    requires
        1 <= k,
        ancestor_at(s, c, k) == Some(a),
    ensures
        reaches_within(s, c, a, s.len()),
    decreases k,
{
    if k > s.len() {
        let k2 = lemma_shorter_chain(s, c, a, k);
        lemma_within_bound(s, c, a, k2);
    }
}

/// `is_subclass_of` answers exactly whether the ancestor appears on the
/// child's parent chain at any depth: bounding the walk by the number of
/// records loses nothing.
pub proof fn lemma_subclass_iff_on_chain(s: Seq<ClassView>, child: TypeId, ancestor: TypeId)
    ensures
        reaches_within(s, child, ancestor, s.len()) <==> is_ancestor(s, child, ancestor),
{
    if is_ancestor(s, child, ancestor) {
        let k = choose|k: nat| 1 <= k && ancestor_at(s, child, k) == Some(ancestor);
        lemma_within_bound(s, child, ancestor, k);
    }
}

/// A store of class records with at most one record per type identity.
pub struct Registry {
    entries: Vec<ClassInfo>,
}

impl View for Registry {
    type V = Seq<ClassView>;

    closed spec fn view(&self) -> Seq<ClassView> {
        self.entries@.map_values(|c: ClassInfo| c@)
    }
}

impl Registry {
    /// At most one record per type identity.
    pub open spec fn wf(&self) -> bool {
        unique_keys(self@, class_key())
    }

    /// An empty registry.
    pub fn new() -> (r: Registry)
        ensures
            r.wf(),
            r@ =~= Seq::<ClassView>::empty(),
    {
        let r = Registry { entries: Vec::new() };
        assert(r@ =~= Seq::<ClassView>::empty());
        r
    }

    /// The number of registered classes.
    pub fn len(&self) -> (r: usize)
        ensures
            r == self@.len(),
    {
        self.entries.len()
    }

    /// Index of the record for `type_id`.
    fn position(&self, type_id: &TypeId) -> (r: Option<usize>)
        ensures
            match r {
                Some(i) => i < self@.len() && self@[i as int].type_id == *type_id,
                None => forall|i: int| 0 <= i < self@.len() ==> self@[i].type_id != *type_id,
            },
    {
        let mut i: usize = 0;
        while i < self.entries.len()
            invariant
                i <= self@.len(),
                self@.len() == self.entries@.len(),
                forall|j: int| 0 <= j < i ==> self@[j].type_id != *type_id,
            decreases self@.len() - i,
        {
            if self.entries[i].type_id == *type_id {
                return Some(i);
            }
            i = i + 1;
        }
        None
    }

    /// Records `info` under its own type identity, replacing any record
    /// already there.
    pub fn register(&mut self, info: ClassInfo)
        requires
            old(self).wf(),
        ensures
            final(self).wf(),
            final(self)@ == upsert(old(self)@, class_key(), info@),
            entry_for(final(self)@, class_key(), info.type_id) == Some(info@),
            forall|t: TypeId|
                t != info.type_id ==> entry_for(final(self)@, class_key(), t) == entry_for(
                    old(self)@,
                    class_key(),
                    t,
                ),
    {
        let ghost c = info@;
        let ghost s = self@;
        proof {
            lemma_upsert(s, class_key(), c);
        }
        match self.position(&info.type_id) {
            Some(i) => {
                self.entries.set(i, info);
                proof {
                    assert(has_key(s, class_key(), c.type_id));
                    let p = choose|j: int| 0 <= j < s.len() && class_key()(s[j]) == c.type_id;
                    assert(p == i as int);
                    assert(self@ =~= upsert(s, class_key(), c));
                }
            },
            None => {
                self.entries.push(info);
                proof {
                    assert(self@ =~= upsert(s, class_key(), c));
                }
            },
        }
    }

    /// A copy of the record for `type_id`, if one is registered.
    pub fn get(&self, type_id: TypeId) -> (r: Option<ClassInfo>)
        requires
            self.wf(),
        ensures
            match r {
                Some(c) => entry_for(self@, class_key(), type_id) == Some(c@),
                None => entry_for(self@, class_key(), type_id) is None,
            },
    {
        match self.position(&type_id) {
            Some(i) => {
                proof {
                    lemma_entry_at(self@, class_key(), i as int);
                }
                Some(self.entries[i].clone())
            },
            None => None,
        }
    }

    /// A copy of the first record, in registry order, whose display name is
    /// `name`.
    pub fn get_by_name(&self, name: &str) -> (r: Option<ClassInfo>)
        ensures
            match r {
                Some(c) => exists|i: int|
                    0 <= i < self@.len() && self@[i] == c@ && c@.name == name@ && forall|j: int|
                        0 <= j < i ==> self@[j].name != name@,
                None => forall|i: int| 0 <= i < self@.len() ==> self@[i].name != name@,
            },
    {
        let key = name.to_owned();
        let mut i: usize = 0;
        while i < self.entries.len()
            invariant
                i <= self@.len(),
                self@.len() == self.entries@.len(),
                key@ == name@,
                forall|j: int| 0 <= j < i ==> self@[j].name != name@,
            decreases self@.len() - i,
        {
            assert(self@[i as int] == self.entries@[i as int]@);
            if self.entries[i].name == key {
                let c = self.entries[i].clone();
                return Some(c);
            }
            i = i + 1;
        }
        None
    }

    /// Whether `parent` is reached from `child` by following recorded parent
    /// links. The walk follows at most as many links as there are records,
    /// so it ends even on a cyclic chain; an unregistered type or a root ends
    /// it with `false`.
    pub fn is_subclass_of(&self, child: TypeId, parent: TypeId) -> (r: bool)
        requires
            self.wf(),
        ensures
            r == reaches_within(self@, child, parent, self@.len()),
    {
        let n = self.entries.len();
        let ghost s = self@;
        let mut current = child;
        let mut steps: usize = 0;
        while steps < n
            invariant
                n == s.len(),
                s == self@,
                self.wf(),
                steps <= n,
                ancestor_at(s, child, steps as nat) == Some(current),
                forall|k: nat| 1 <= k <= steps ==> ancestor_at(s, child, k) != Some(parent),
            decreases n - steps,
        {
            let next = match self.position(&current) {
                Some(i) => {
                    proof {
                        lemma_entry_at(s, class_key(), i as int);
                    }
                    self.entries[i].parent
                },
                None => None,
            };
            assert(ancestor_at(s, child, (steps + 1) as nat) == next);
            match next {
                Some(p) => {
                    if p == parent {
                        return true;
                    }
                    current = p;
                    steps = steps + 1;
                },
                None => {
                    proof {
                        assert forall|k: nat| 1 <= k <= n implies ancestor_at(s, child, k) != Some(
                            parent,
                        ) by {
                            if k > steps {
                                lemma_chain_ends(s, child, (steps + 1) as nat, k);
                            }
                        }
                    }
                    return false;
                },
            }
        }
        false
    }
}

} // verus!
