//! The type registry: accumulates named type definitions from independently
//! authored modules together with a queue of pending field injections, and
//! resolves the queue to a fixpoint when the schema is assembled.
use vstd::multiset::Multiset;
use vstd::prelude::*;

use crate::schema::Schema;
use crate::types::{EnumDef, FieldDef, InputObjectDef, InterfaceDef, ObjectDef, ObjectModel,
    UnionDef};

verus! {

/// The assembly phase of a registry.  Registration and injection requests
/// are only permitted while accumulating; the fixpoint pass runs while
/// finalizing; afterwards the registry is finalized or failed, and there is
/// no path back.
#[derive(Clone, Copy, PartialEq, Eq, Structural)]
pub enum Phase {
    Accumulating,
    Finalizing,
    Finalized,
    Failed,
}

/// A definition that is keyed by its type name within its category.
pub trait NamedDef: Sized {
    /// The key under which the definition is stored.
    spec fn key(&self) -> Seq<char>;

    /// The key, as an executable string.
    fn key_name(&self) -> (r: &String)
        ensures
            r@ == self.key(),
    ;
}

impl NamedDef for ObjectDef {
    open spec fn key(&self) -> Seq<char> {
        self.name@
    }

    fn key_name(&self) -> (r: &String) {
        &self.name
    }
}

impl NamedDef for EnumDef {
    open spec fn key(&self) -> Seq<char> {
        self.name@
    }

    fn key_name(&self) -> (r: &String) {
        &self.name
    }
}

impl NamedDef for UnionDef {
    open spec fn key(&self) -> Seq<char> {
        self.name@
    }

    fn key_name(&self) -> (r: &String) {
        &self.name
    }
}

impl NamedDef for InterfaceDef {
    open spec fn key(&self) -> Seq<char> {
        self.name@
    }

    fn key_name(&self) -> (r: &String) {
        &self.name
    }
}

impl NamedDef for InputObjectDef {
    open spec fn key(&self) -> Seq<char> {
        self.name@
    }

    fn key_name(&self) -> (r: &String) {
        &self.name
    }
}

/// Some definition in `s` is stored under key `k`.
pub open spec fn has_key<T: NamedDef>(s: Seq<T>, k: Seq<char>) -> bool {
    exists|i: int| 0 <= i < s.len() && s[i].key() == k
}

/// The index at which key `k` is stored (meaningful when keys are unique).
pub open spec fn key_at<T: NamedDef>(s: Seq<T>, k: Seq<char>) -> int {
    choose|i: int| 0 <= i < s.len() && s[i].key() == k
}

/// No two definitions in `s` share a key.
pub open spec fn keys_unique<T: NamedDef>(s: Seq<T>) -> bool {
    forall|i: int, j: int| 0 <= i < j < s.len() ==> s[i].key() != s[j].key()
}

/// Insert `x`, replacing the definition with the same key if one exists
/// (last write wins) and appending otherwise.
pub open spec fn spec_upsert<T: NamedDef>(s: Seq<T>, x: T) -> Seq<T> {
    if has_key(s, x.key()) {
        s.update(key_at(s, x.key()), x)
    } else {
        s.push(x)
    }
}

/// Insert-or-replace keyed by type name.  A duplicate name silently
/// overwrites the earlier definition, keeping its position.
fn upsert<T: NamedDef>(v: &mut Vec<T>, x: T)
    requires
        keys_unique(old(v)@),
    ensures
        final(v)@ == spec_upsert(old(v)@, x),
        keys_unique(final(v)@),
{
    let n = v.len();
    let mut i: usize = 0;
    while i < n
        invariant
            n == v@.len(),
            i <= n,
            v@ == old(v)@,
            keys_unique(v@),
            forall|j: int| 0 <= j < i ==> v@[j].key() != x.key(),
        decreases n - i,
    {
        if *v[i].key_name() == *x.key_name() {
            let ghost k = x.key();
            assert(v@[i as int].key() == k);
            v[i] = x;
            assert(key_at(old(v)@, k) == i as int) by {
                let w = key_at(old(v)@, k);
                assert(0 <= w < old(v)@.len() && old(v)@[w].key() == k);
            }
            assert(keys_unique(v@)) by {
                assert(forall|p: int, q: int|
                    0 <= p < q < v@.len() ==> v@[p].key() != v@[q].key());
            }
            return ;
        }
        i = i + 1;
    }
    assert(!has_key(v@, x.key()));
    v.push(x);
    assert(keys_unique(v@)) by {
        assert(forall|p: int| 0 <= p < old(v)@.len() ==> v@[p] == old(v)@[p]);
    }
}

/// Provenance of a field injection request: which definition asked for it,
/// and for which field.
pub struct ExpandObjectContext {
    pub definition: String,
    pub field: String,
}

impl ExpandObjectContext {
    pub fn new(definition: &str, field: &str) -> (r: Self)
        ensures
            r.definition@ == definition@,
            r.field@ == field@,
    {
        ExpandObjectContext { definition: definition.to_owned(), field: field.to_owned() }
    }
}

/// A queued request: once an object named `name` exists, append `fields`
/// and `implements` to it.  Injected field sets are expected to be
/// disjoint from the target's own fields, so independent injections
/// commute.
pub struct PendingExpandObject {
    pub name: String,
    pub fields: Vec<FieldDef>,
    pub implements: Vec<String>,
    pub ctx: ExpandObjectContext,
}

/// Spec-level image of a pending injection.
pub struct PendingModel {
    pub target: Seq<char>,
    pub fields: Seq<FieldDef>,
    pub implements: Seq<Seq<char>>,
    pub definition: Seq<char>,
    pub field: Seq<char>,
}

impl View for PendingExpandObject {
    type V = PendingModel;

    open spec fn view(&self) -> PendingModel {
        PendingModel {
            target: self.name@,
            fields: self.fields@,
            implements: self.implements@.map_values(|s: String| s@),
            definition: self.ctx.definition@,
            field: self.ctx.field@,
        }
    }
}

/// The spec-level models of a vector of pending injections.
pub open spec fn pend_views(v: Seq<PendingExpandObject>) -> Seq<PendingModel> {
    v.map_values(|p: PendingExpandObject| p@)
}

/// The spec-level models of a vector of object definitions.
pub open spec fn obj_views(v: Seq<ObjectDef>) -> Seq<ObjectModel> {
    v.map_values(|o: ObjectDef| o@)
}

/// An object name is present in the model sequence.
pub open spec fn has_obj(s: Seq<ObjectModel>, name: Seq<char>) -> bool {
    exists|i: int| 0 <= i < s.len() && s[i].name == name
}

/// The index of an object name (meaningful when names are unique).
pub open spec fn obj_at(s: Seq<ObjectModel>, name: Seq<char>) -> int {
    choose|i: int| 0 <= i < s.len() && s[i].name == name
}

/// No two objects share a name.
pub open spec fn objs_unique(s: Seq<ObjectModel>) -> bool {
    forall|i: int, j: int| 0 <= i < j < s.len() ==> s[i].name != s[j].name
}

/// Apply one pending injection: if its target exists, append the injected
/// fields to the target, in place; otherwise leave everything unchanged.
pub open spec fn inject_one(s: Seq<ObjectModel>, p: PendingModel) -> Seq<ObjectModel> {
    if has_obj(s, p.target) {
        let i = obj_at(s, p.target);
        s.update(
            i,
            ObjectModel {
                fields: s[i].fields + p.fields,
                implements: s[i].implements + p.implements,
                ..s[i]
            },
        )
    } else {
        s
    }
}

/// Apply a queue of pending injections in arrival (FIFO) order.
pub open spec fn inject_all(s: Seq<ObjectModel>, ps: Seq<PendingModel>) -> Seq<ObjectModel>
    decreases ps.len(),
{
    if ps.len() == 0 {
        s
    } else {
        inject_all(inject_one(s, ps[0]), ps.drop_first())
    }
}

/// The injections whose targets are absent from `s`: exactly the entries a
/// stalled fixpoint reports, in arrival order.
pub open spec fn stuck_of(s: Seq<ObjectModel>, ps: Seq<PendingModel>) -> Seq<PendingModel>
    decreases ps.len(),
{
    if ps.len() == 0 {
        Seq::empty()
    } else {
        let rest = stuck_of(s, ps.drop_last());
        if has_obj(s, ps.last().target) {
            rest
        } else {
            rest.push(ps.last())
        }
    }
}

/// The fields injection `p` contributes to the object named `name`.
pub open spec fn contrib_of(name: Seq<char>, p: PendingModel) -> Multiset<FieldDef> {
    if p.target == name {
        p.fields.to_multiset()
    } else {
        Multiset::empty()
    }
}

/// Everything a queue of injections contributes to the object named
/// `name`: each matching entry's fields, counted exactly once.
pub open spec fn injected_fields(name: Seq<char>, ps: Seq<PendingModel>) -> Multiset<FieldDef>
    decreases ps.len(),
{
    if ps.len() == 0 {
        Multiset::empty()
    } else {
        contrib_of(name, ps[0]).add(injected_fields(name, ps.drop_first()))
    }
}

/// The fixpoint leaves nothing stuck exactly when every queued target is
/// registered.
pub proof fn lemma_stuck_empty_iff(s: Seq<ObjectModel>, ps: Seq<PendingModel>)
    ensures
        stuck_of(s, ps).len() == 0 <==> (forall|i: int|
            0 <= i < ps.len() ==> has_obj(s, #[trigger] ps[i].target)),
    decreases ps.len(),
{
    if ps.len() > 0 {
        lemma_stuck_empty_iff(s, ps.drop_last());
        let dl = ps.drop_last();
        assert(forall|i: int| 0 <= i < dl.len() ==> #[trigger] dl[i].target == ps[i].target);
        if stuck_of(s, ps).len() == 0 {
            assert(has_obj(s, ps.last().target));
            assert(stuck_of(s, dl).len() == 0);
            assert forall|i: int| 0 <= i < ps.len() implies has_obj(
                s,
                #[trigger] ps[i].target,
            ) by {
                if i < ps.len() - 1 {
                    assert(has_obj(s, dl[i].target));
                } else {
                    assert(ps[i] == ps.last());
                }
            }
        } else {
            if forall|i: int| 0 <= i < ps.len() ==> has_obj(s, #[trigger] ps[i].target) {
                assert(has_obj(s, ps.last().target)) by {
                    assert(ps.last() == ps[ps.len() - 1]);
                }
                assert forall|i: int| 0 <= i < dl.len() implies has_obj(
                    s,
                    #[trigger] dl[i].target,
                ) by {
                    assert(has_obj(s, ps[i].target));
                }
                assert(stuck_of(s, dl).len() == 0);
                assert(stuck_of(s, ps).len() == 0);
            }
        }
    }
}

/// A pending injection whose target is unregistered shows up in the stuck
/// queue: no stuck entry is dropped from the diagnostic.
pub proof fn lemma_stuck_contains(s: Seq<ObjectModel>, ps: Seq<PendingModel>, i: int)
    requires
        0 <= i < ps.len(),
        !has_obj(s, ps[i].target),
    ensures
        stuck_of(s, ps).contains(ps[i]),
    decreases ps.len(),
{
    if i == ps.len() - 1 {
        assert(stuck_of(s, ps).last() == ps.last());
    } else {
        lemma_stuck_contains(s, ps.drop_last(), i);
        let rest = stuck_of(s, ps.drop_last());
        let w = choose|w: int| 0 <= w < rest.len() && rest[w] == ps.drop_last()[i];
        assert(ps.drop_last()[i] == ps[i]);
        if has_obj(s, ps.last().target) {
            assert(stuck_of(s, ps)[w] == ps[i]);
        } else {
            assert(stuck_of(s, ps)[w] == ps[i]);
        }
    }
}

/// Injecting one entry adds exactly its contribution to each object's
/// fields, as a multiset.
proof fn lemma_inject_one_fields(s: Seq<ObjectModel>, p: PendingModel, j: int)
    requires
        objs_unique(s),
        0 <= j < s.len(),
    ensures
        inject_one(s, p)[j].fields.to_multiset() == s[j].fields.to_multiset().add(
            contrib_of(s[j].name, p),
        ),
{
    broadcast use vstd::multiset::group_multiset_axioms;

    if p.target == s[j].name {
        assert(has_obj(s, p.target));
        let w = obj_at(s, p.target);
        assert(0 <= w < s.len() && s[w].name == p.target);
        assert(w == j);
        assert(inject_one(s, p)[j].fields == s[j].fields + p.fields);
        vstd::seq_lib::lemma_multiset_commutative(s[j].fields, p.fields);
    } else {
        if has_obj(s, p.target) {
            let w = obj_at(s, p.target);
            assert(s[w].name == p.target);
            assert(w != j);
            assert(inject_one(s, p)[j] == s[j]);
        }
        assert(inject_one(s, p)[j].fields.to_multiset() =~= s[j].fields.to_multiset().add(
            Multiset::empty(),
        ));
    }
}

/// After the whole queue is applied, each object's fields are its own
/// fields plus every matching injection's fields — each injected field
/// appearing exactly once, however often the queue was scanned.
pub proof fn lemma_inject_all_fields(s: Seq<ObjectModel>, ps: Seq<PendingModel>, j: int)
    requires
        objs_unique(s),
        0 <= j < s.len(),
    ensures
        inject_all(s, ps)[j].fields.to_multiset() == s[j].fields.to_multiset().add(
            injected_fields(s[j].name, ps),
        ),
    decreases ps.len(),
{
    broadcast use vstd::multiset::group_multiset_axioms;

    if ps.len() == 0 {
        assert(inject_all(s, ps)[j].fields.to_multiset() =~= s[j].fields.to_multiset().add(
            Multiset::empty(),
        ));
    } else {
        let s1 = inject_one(s, ps[0]);
        lemma_inject_one_names(s, ps[0]);
        assert(objs_unique(s1));
        lemma_inject_one_fields(s, ps[0], j);
        lemma_inject_all_fields(s1, ps.drop_first(), j);
        assert(s1[j].name == s[j].name);
        let a = s[j].fields.to_multiset();
        let h = contrib_of(s[j].name, ps[0]);
        let r = injected_fields(s[j].name, ps.drop_first());
        assert(inject_all(s, ps)[j].fields.to_multiset() == a.add(h).add(r));
        assert(a.add(h).add(r) =~= a.add(h.add(r)));
    }
}

/// Per-object contributions of a queue depend only on which injections it
/// holds, not on where entry `i` sits in it.
proof fn lemma_injected_fields_remove(name: Seq<char>, ps: Seq<PendingModel>, i: int)
    requires
        0 <= i < ps.len(),
    ensures
        injected_fields(name, ps) == contrib_of(name, ps[i]).add(
            injected_fields(name, ps.remove(i)),
        ),
    decreases i,
{
    broadcast use vstd::multiset::group_multiset_axioms;

    if i == 0 {
        assert(ps.remove(0) =~= ps.drop_first());
    } else {
        assert(ps.remove(i).drop_first() =~= ps.drop_first().remove(i - 1));
        assert(ps.remove(i)[0] == ps[0]);
        assert(ps.drop_first()[i - 1] == ps[i]);
        lemma_injected_fields_remove(name, ps.drop_first(), i - 1);
        let h0 = contrib_of(name, ps[0]);
        let hi = contrib_of(name, ps[i]);
        let r = injected_fields(name, ps.drop_first().remove(i - 1));
        assert(injected_fields(name, ps) == h0.add(hi.add(r)));
        assert(injected_fields(name, ps.remove(i)) == h0.add(r));
        assert(h0.add(hi.add(r)) =~= hi.add(h0.add(r)));
    }
}

/// Two queues holding the same injections contribute the same fields to
/// every object, whatever their arrival orders.
pub proof fn lemma_injected_fields_perm(name: Seq<char>, ps1: Seq<PendingModel>, ps2: Seq<
    PendingModel>)
    requires
        ps1.to_multiset() == ps2.to_multiset(),
    ensures
        injected_fields(name, ps1) == injected_fields(name, ps2),
    decreases ps1.len(),
{
    broadcast use vstd::multiset::group_multiset_axioms;

    ps1.to_multiset_ensures();
    ps2.to_multiset_ensures();
    if ps1.len() == 0 {
        assert(ps2.to_multiset().len() == 0);
        assert(ps2.len() == 0);
    } else {
        let x = ps1[0];
        assert(ps1.contains(x));
        assert(ps1.to_multiset().count(x) > 0);
        assert(ps2.contains(x));
        let i = choose|i: int| 0 <= i < ps2.len() && ps2[i] == x;
        assert(ps2.remove(i).to_multiset() =~= ps2.to_multiset().remove(x));
        assert(ps1.remove(0) =~= ps1.drop_first());
        assert(ps1.drop_first().to_multiset() =~= ps1.to_multiset().remove(x));
        lemma_injected_fields_perm(name, ps1.drop_first(), ps2.remove(i));
        lemma_injected_fields_remove(name, ps2, i);
        assert(injected_fields(name, ps1) == contrib_of(name, x).add(
            injected_fields(name, ps1.drop_first()),
        ));
    }
}

/// The order in which injections arrive is immaterial.  For queues that
/// hold the same injections: the fixpoint succeeds for one order exactly
/// when it succeeds for every other, no object is added, removed or
/// renamed either way, and every object ends up with the same fields (as a
/// multiset — each injected field exactly once), whatever the order.
pub proof fn lemma_injection_order_irrelevant(
    s: Seq<ObjectModel>,
    ps1: Seq<PendingModel>,
    ps2: Seq<PendingModel>,
)
    requires
        objs_unique(s),
        ps1.to_multiset() == ps2.to_multiset(),
    ensures
        stuck_of(s, ps1).len() == 0 <==> stuck_of(s, ps2).len() == 0,
        inject_all(s, ps1).len() == s.len(),
        inject_all(s, ps2).len() == s.len(),
        forall|j: int|
            0 <= j < s.len() ==> #[trigger] inject_all(s, ps1)[j].name == inject_all(s, ps2)[
                j].name,
        forall|j: int|
            0 <= j < s.len() ==> #[trigger] inject_all(s, ps1)[j].fields.to_multiset()
                == inject_all(s, ps2)[j].fields.to_multiset(),
{
    broadcast use vstd::multiset::group_multiset_axioms;

    ps1.to_multiset_ensures();
    ps2.to_multiset_ensures();
    lemma_inject_all_names(s, ps1);
    lemma_inject_all_names(s, ps2);
    assert forall|j: int| 0 <= j < s.len() implies #[trigger] inject_all(s, ps1)[j].name
        == inject_all(s, ps2)[j].name by {
        assert(inject_all(s, ps1)[j].name == s[j].name);
        assert(inject_all(s, ps2)[j].name == s[j].name);
    }
    lemma_stuck_empty_iff(s, ps1);
    lemma_stuck_empty_iff(s, ps2);
    if forall|i: int| 0 <= i < ps1.len() ==> has_obj(s, #[trigger] ps1[i].target) {
        assert forall|i: int| 0 <= i < ps2.len() implies has_obj(s, #[trigger] ps2[i].target) by {
            assert(ps2.contains(ps2[i]));
            assert(ps2.to_multiset().count(ps2[i]) > 0);
            assert(ps1.contains(ps2[i]));
            let w = choose|w: int| 0 <= w < ps1.len() && ps1[w] == ps2[i];
            assert(has_obj(s, ps1[w].target));
        }
    }
    if forall|i: int| 0 <= i < ps2.len() ==> has_obj(s, #[trigger] ps2[i].target) {
        assert forall|i: int| 0 <= i < ps1.len() implies has_obj(s, #[trigger] ps1[i].target) by {
            assert(ps1.contains(ps1[i]));
            assert(ps1.to_multiset().count(ps1[i]) > 0);
            assert(ps2.contains(ps1[i]));
            let w = choose|w: int| 0 <= w < ps2.len() && ps2[w] == ps1[i];
            assert(has_obj(s, ps2[w].target));
        }
    }
    assert forall|j: int| 0 <= j < s.len() implies #[trigger] inject_all(s, ps1)[
        j].fields.to_multiset() == inject_all(s, ps2)[j].fields.to_multiset() by {
        lemma_inject_all_fields(s, ps1, j);
        lemma_inject_all_fields(s, ps2, j);
        lemma_injected_fields_perm(s[j].name, ps1, ps2);
    }
}

/// Upserting keeps every key that was present and makes the new
/// definition's key present.
pub proof fn lemma_upsert_keys<T: NamedDef>(s: Seq<T>, x: T)
    ensures
        has_key(spec_upsert(s, x), x.key()),
        forall|k: Seq<char>| has_key(s, k) ==> has_key(spec_upsert(s, x), k),
{
    if has_key(s, x.key()) {
        let i = key_at(s, x.key());
        assert(0 <= i < s.len() && s[i].key() == x.key());
        assert(spec_upsert(s, x)[i] == x);
        assert forall|k: Seq<char>| has_key(s, k) implies has_key(spec_upsert(s, x), k) by {
            let j = choose|j: int| 0 <= j < s.len() && s[j].key() == k;
            if j == i {
                assert(spec_upsert(s, x)[i].key() == k || x.key() == k);
            } else {
                assert(spec_upsert(s, x)[j].key() == k);
            }
        }
    } else {
        assert(spec_upsert(s, x).last() == x);
        assert forall|k: Seq<char>| has_key(s, k) implies has_key(spec_upsert(s, x), k) by {
            let j = choose|j: int| 0 <= j < s.len() && s[j].key() == k;
            assert(spec_upsert(s, x)[j].key() == k);
        }
    }
}

/// An upsert of a definition whose key is not yet present appends it.
pub proof fn lemma_upsert_fresh<T: NamedDef>(s: Seq<T>, x: T)
    requires
        !has_key(s, x.key()),
    ensures
        spec_upsert(s, x) == s.push(x),
{
}

/// An injection whose target sits at a known position of a uniquely-named
/// object list appends its fields and implements to exactly that object.
pub proof fn lemma_inject_one_at(s: Seq<ObjectModel>, p: PendingModel, k: int)
    requires
        objs_unique(s),
        0 <= k < s.len(),
        s[k].name == p.target,
    ensures
        inject_one(s, p) == s.update(
            k,
            ObjectModel {
                fields: s[k].fields + p.fields,
                implements: s[k].implements + p.implements,
                ..s[k]
            },
        ),
{
    assert(has_obj(s, p.target));
    let w = obj_at(s, p.target);
    assert(0 <= w < s.len() && s[w].name == p.target);
    assert(w == k);
}

/// A name is stored among the object definitions exactly when it is
/// present among their models.
pub proof fn lemma_has_key_has_obj(v: Seq<ObjectDef>, k: Seq<char>)
    ensures
        has_key(v, k) == has_obj(obj_views(v), k),
{
    if has_key(v, k) {
        let i = choose|i: int| 0 <= i < v.len() && v[i].key() == k;
        assert(obj_views(v)[i].name == k);
    }
    if has_obj(obj_views(v), k) {
        let i = choose|i: int| 0 <= i < obj_views(v).len() && obj_views(v)[i].name == k;
        assert(v[i].key() == k);
    }
}

/// One stuck injection, reported when the fixpoint stalls.
#[derive(Debug)]
pub struct RegistrationError {
    pub target: String,
    pub definition: String,
    pub field: String,
}

impl View for RegistrationError {
    type V = (Seq<char>, Seq<char>, Seq<char>);

    open spec fn view(&self) -> (Seq<char>, Seq<char>, Seq<char>) {
        (self.target@, self.definition@, self.field@)
    }
}

/// The diagnostic triple a stuck injection is reported as.
pub open spec fn err_of(p: PendingModel) -> (Seq<char>, Seq<char>, Seq<char>) {
    (p.target, p.definition, p.field)
}

/// The spec-level images of a vector of reported errors.
pub open spec fn err_views(es: Seq<RegistrationError>) -> Seq<(Seq<char>, Seq<char>, Seq<char>)> {
    es.map_values(|e: RegistrationError| e@)
}

/// The diagnostic triples of a queue of stuck injections.
pub open spec fn errs_of(ps: Seq<PendingModel>) -> Seq<(Seq<char>, Seq<char>, Seq<char>)> {
    ps.map_values(|p: PendingModel| err_of(p))
}

impl RegistrationError {
    /// The diagnostic line for one stuck injection.
    pub fn message(&self) -> (r: String)
        ensures
            r@ == "Can't find "@ + self.target@ + " when defining "@ + self.field@ + " in "@
                + self.definition@,
    {
        let mut s = String::new();
        s.append("Can't find ");
        s.append(self.target.as_str());
        s.append(" when defining ");
        s.append(self.field.as_str());
        s.append(" in ");
        s.append(self.definition.as_str());
        s
    }
}

/// The batched failure of a stalled fixpoint: every still-pending
/// injection, with its provenance, in arrival order.
#[derive(Debug)]
pub struct RegistrationFailure {
    pub errors: Vec<RegistrationError>,
}

/// A module that contributes definitions or injection requests.
pub trait Register {
    fn register(registry: Registry) -> (r: Registry)
        requires
            registry.wf(),
            registry.phase is Accumulating,
        ensures
            r.wf(),
            r.phase is Accumulating,
    ;
}

/// A type that adds fields to an object owned by another module.
pub trait ExpandObject {
    type Target: Object;
}

/// A type that defines a new object marked as an extension of another.
pub trait ExtendObject {
    type Target: Object;
}

/// A type that appears in the schema as an object type.
pub trait Object {
    spec fn gql_name() -> Seq<char>;

    fn gql_type_name() -> (r: String)
        ensures
            r@ == Self::gql_name(),
    ;
}

/// A type that appears in the schema as an enum type.
pub trait Enum {
    spec fn gql_name() -> Seq<char>;

    fn gql_type_name() -> (r: String)
        ensures
            r@ == Self::gql_name(),
    ;
}

/// A type that appears in the schema as a union type.
pub trait Union {
    spec fn gql_name() -> Seq<char>;

    fn gql_type_name() -> (r: String)
        ensures
            r@ == Self::gql_name(),
    ;
}

/// A type that appears in the schema as an interface type, able to add its
/// field declarations to an interface definition under construction.
pub trait Interface {
    spec fn gql_name() -> Seq<char>;

    fn gql_type_name() -> (r: String)
        ensures
            r@ == Self::gql_name(),
    ;

    fn register_fields(interface: InterfaceDef) -> InterfaceDef;
}

/// A type that appears in the schema as an input object type.
pub trait InputObject {
    spec fn gql_name() -> Seq<char>;

    fn gql_type_name() -> (r: String)
        ensures
            r@ == Self::gql_name(),
    ;
}

/// Accumulates named definitions per category, plus the pending injection
/// queue, until the schema is assembled.
pub struct Registry {
    pub types: Vec<ObjectDef>,
    pub extend_types: Vec<ObjectDef>,
    pub enums: Vec<EnumDef>,
    pub unions: Vec<UnionDef>,
    pub interfaces: Vec<InterfaceDef>,
    pub input_types: Vec<InputObjectDef>,
    pub pending_expand_objects: Vec<PendingExpandObject>,
    pub phase: Phase,
}

impl Registry {
    /// The object definitions, as spec-level models.
    pub open spec fn objs(&self) -> Seq<ObjectModel> {
        obj_views(self.types@)
    }

    /// The pending injections, as spec-level models.
    pub open spec fn pend(&self) -> Seq<PendingModel> {
        pend_views(self.pending_expand_objects@)
    }

    /// Names are unique within every category.
    pub open spec fn wf(&self) -> bool {
        &&& keys_unique(self.types@)
        &&& keys_unique(self.enums@)
        &&& keys_unique(self.unions@)
        &&& keys_unique(self.interfaces@)
        &&& keys_unique(self.input_types@)
    }

    /// All category maps except the objects, and the phase, unchanged.
    pub open spec fn same_but_objects(&self, other: &Registry) -> bool {
        &&& self.extend_types@ == other.extend_types@
        &&& self.enums@ == other.enums@
        &&& self.unions@ == other.unions@
        &&& self.interfaces@ == other.interfaces@
        &&& self.input_types@ == other.input_types@
        &&& self.phase == other.phase
    }

    /// An empty registry, ready to accumulate definitions.
    pub fn new() -> (r: Registry)
        ensures
            r.wf(),
            r.phase is Accumulating,
            r.types@.len() == 0,
            r.extend_types@.len() == 0,
            r.enums@.len() == 0,
            r.unions@.len() == 0,
            r.interfaces@.len() == 0,
            r.input_types@.len() == 0,
            r.pending_expand_objects@.len() == 0,
    {
        Registry {
            types: Vec::new(),
            extend_types: Vec::new(),
            enums: Vec::new(),
            unions: Vec::new(),
            interfaces: Vec::new(),
            input_types: Vec::new(),
            pending_expand_objects: Vec::new(),
            phase: Phase::Accumulating,
        }
    }

    /// Hand the registry to a module's registration function.
    pub fn register<T: Register>(self) -> (r: Registry)
        requires
            self.wf(),
            self.phase is Accumulating,
        ensures
            r.wf(),
            r.phase is Accumulating,
    {
        T::register(self)
    }

    /// Insert an object definition, keyed by its name (a duplicate name
    /// overwrites the earlier definition).
    pub fn register_object(self, object: ObjectDef) -> (r: Registry)
        requires
            self.wf(),
            self.phase is Accumulating,
        ensures
            r.wf(),
            r.phase is Accumulating,
            r.types@ == spec_upsert(self.types@, object),
            r.same_but_objects(&self),
            r.pend() == self.pend(),
    {
        let mut s = self;
        upsert(&mut s.types, object);
        s
    }

    /// Record an object definition marked as an extension.
    pub fn register_extend_object(self, object: ObjectDef) -> (r: Registry)
        requires
            self.wf(),
            self.phase is Accumulating,
        ensures
            r.wf(),
            r.phase is Accumulating,
            r.extend_types@ == self.extend_types@.push(object),
            r.types@ == self.types@,
            r.enums@ == self.enums@,
            r.unions@ == self.unions@,
            r.interfaces@ == self.interfaces@,
            r.input_types@ == self.input_types@,
            r.pend() == self.pend(),
    {
        let mut s = self;
        s.extend_types.push(object);
        s
    }

    /// Insert an enum definition, keyed by its name.
    pub fn register_enum(self, enum_def: EnumDef) -> (r: Registry)
        requires
            self.wf(),
            self.phase is Accumulating,
        ensures
            r.wf(),
            r.phase is Accumulating,
            r.enums@ == spec_upsert(self.enums@, enum_def),
            r.types@ == self.types@,
            r.extend_types@ == self.extend_types@,
            r.unions@ == self.unions@,
            r.interfaces@ == self.interfaces@,
            r.input_types@ == self.input_types@,
            r.pend() == self.pend(),
    {
        let mut s = self;
        upsert(&mut s.enums, enum_def);
        s
    }

    /// Insert an interface definition, keyed by its name.
    pub fn register_interface(self, interface: InterfaceDef) -> (r: Registry)
        requires
            self.wf(),
            self.phase is Accumulating,
        ensures
            r.wf(),
            r.phase is Accumulating,
            r.interfaces@ == spec_upsert(self.interfaces@, interface),
            r.types@ == self.types@,
            r.extend_types@ == self.extend_types@,
            r.enums@ == self.enums@,
            r.unions@ == self.unions@,
            r.input_types@ == self.input_types@,
            r.pend() == self.pend(),
    {
        let mut s = self;
        upsert(&mut s.interfaces, interface);
        s
    }

    /// Insert a union definition, keyed by its name.
    pub fn register_union(self, union_def: UnionDef) -> (r: Registry)
        requires
            self.wf(),
            self.phase is Accumulating,
        ensures
            r.wf(),
            r.phase is Accumulating,
            r.unions@ == spec_upsert(self.unions@, union_def),
            r.types@ == self.types@,
            r.extend_types@ == self.extend_types@,
            r.enums@ == self.enums@,
            r.interfaces@ == self.interfaces@,
            r.input_types@ == self.input_types@,
            r.pend() == self.pend(),
    {
        let mut s = self;
        upsert(&mut s.unions, union_def);
        s
    }

    /// Insert an input object definition, keyed by its name.
    pub fn register_input_object(self, object: InputObjectDef) -> (r: Registry)
        requires
            self.wf(),
            self.phase is Accumulating,
        ensures
            r.wf(),
            r.phase is Accumulating,
            r.input_types@ == spec_upsert(self.input_types@, object),
            r.types@ == self.types@,
            r.extend_types@ == self.extend_types@,
            r.enums@ == self.enums@,
            r.unions@ == self.unions@,
            r.interfaces@ == self.interfaces@,
            r.pend() == self.pend(),
    {
        let mut s = self;
        upsert(&mut s.input_types, object);
        s
    }

    /// Request a deferred injection: once an object named `name` exists,
    /// append `fields` and `implements` to it.  May be called before the
    /// target is registered.
    pub fn update_object(
        self,
        name: &str,
        fields: Vec<FieldDef>,
        implements: Vec<String>,
        ctx: ExpandObjectContext,
    ) -> (r: Registry)
        requires
            self.wf(),
            self.phase is Accumulating,
        ensures
            r.wf(),
            r.phase is Accumulating,
            r.pend() == self.pend().push(
                PendingModel {
                    target: name@,
                    fields: fields@,
                    implements: implements@.map_values(|s: String| s@),
                    definition: ctx.definition@,
                    field: ctx.field@,
                },
            ),
            r.types@ == self.types@,
            r.extend_types@ == self.extend_types@,
            r.enums@ == self.enums@,
            r.unions@ == self.unions@,
            r.interfaces@ == self.interfaces@,
            r.input_types@ == self.input_types@,
    {
        let mut s = self;
        let p = PendingExpandObject { name: name.to_owned(), fields, implements, ctx };
        s.pending_expand_objects.push(p);
        assert(s.pend() =~= self.pend().push(p@));
        s
    }
}

/// Injection never changes how many objects there are, nor any of their
/// names: it only appends fields to one of them.
pub proof fn lemma_inject_one_names(s: Seq<ObjectModel>, p: PendingModel)
    ensures
        inject_one(s, p).len() == s.len(),
        forall|j: int| 0 <= j < s.len() ==> inject_one(s, p)[j].name == s[j].name,
{
}

/// `lemma_inject_one_names`, extended over a whole queue.
pub proof fn lemma_inject_all_names(s: Seq<ObjectModel>, ps: Seq<PendingModel>)
    ensures
        inject_all(s, ps).len() == s.len(),
        forall|j: int| 0 <= j < s.len() ==> inject_all(s, ps)[j].name == s[j].name,
    decreases ps.len(),
{
    if ps.len() > 0 {
        lemma_inject_one_names(s, ps[0]);
        lemma_inject_all_names(inject_one(s, ps[0]), ps.drop_first());
    }
}

/// Applying a queue and then one more injection is applying the extended
/// queue.
pub proof fn lemma_inject_all_snoc(s: Seq<ObjectModel>, ps: Seq<PendingModel>, p: PendingModel)
    ensures
        inject_all(s, ps.push(p)) == inject_one(inject_all(s, ps), p),
    decreases ps.len(),
{
    let q = ps.push(p);
    if ps.len() == 0 {
        assert(q[0] == p);
        assert(q.drop_first() =~= Seq::<PendingModel>::empty());
        assert(inject_all(s, q) == inject_all(inject_one(s, p), q.drop_first()));
        assert(inject_all(inject_one(s, p), Seq::<PendingModel>::empty()) == inject_one(s, p));
        assert(inject_all(s, ps) == s);
    } else {
        assert(q.drop_first() =~= ps.drop_first().push(p));
        assert(q[0] == ps[0]);
        assert(inject_all(s, q) == inject_all(inject_one(s, ps[0]), ps.drop_first().push(p)));
        lemma_inject_all_snoc(inject_one(s, ps[0]), ps.drop_first(), p);
        assert(inject_all(s, ps) == inject_all(inject_one(s, ps[0]), ps.drop_first()));
    }
}

/// Whether a target is present depends only on the object names.
pub proof fn lemma_has_obj_names(s1: Seq<ObjectModel>, s2: Seq<ObjectModel>, name: Seq<char>)
    requires
        s1.len() == s2.len(),
        forall|j: int| 0 <= j < s1.len() ==> s1[j].name == s2[j].name,
    ensures
        has_obj(s1, name) == has_obj(s2, name),
{
    if has_obj(s1, name) {
        let i = choose|i: int| 0 <= i < s1.len() && s1[i].name == name;
        assert(s2[i].name == name);
    }
    if has_obj(s2, name) {
        let i = choose|i: int| 0 <= i < s2.len() && s2[i].name == name;
        assert(s1[i].name == name);
    }
}

/// Which injections are stuck depends only on the object names.
pub proof fn lemma_stuck_names(s1: Seq<ObjectModel>, s2: Seq<ObjectModel>, ps: Seq<PendingModel>)
    requires
        s1.len() == s2.len(),
        forall|j: int| 0 <= j < s1.len() ==> s1[j].name == s2[j].name,
    ensures
        stuck_of(s1, ps) == stuck_of(s2, ps),
    decreases ps.len(),
{
    if ps.len() > 0 {
        lemma_has_obj_names(s1, s2, ps.last().target);
        lemma_stuck_names(s1, s2, ps.drop_last());
    }
}

/// Every entry of the stuck queue is itself stuck.
pub proof fn lemma_stuck_elements(s: Seq<ObjectModel>, ps: Seq<PendingModel>)
    ensures
        forall|i: int|
            0 <= i < stuck_of(s, ps).len() ==> !has_obj(s, #[trigger] stuck_of(s, ps)[i].target),
    decreases ps.len(),
{
    if ps.len() > 0 {
        lemma_stuck_elements(s, ps.drop_last());
        let rest = stuck_of(s, ps.drop_last());
        assert forall|i: int| 0 <= i < stuck_of(s, ps).len() implies !has_obj(
            s,
            #[trigger] stuck_of(s, ps)[i].target,
        ) by {
            if !has_obj(s, ps.last().target) {
                if i < rest.len() {
                    assert(stuck_of(s, ps)[i] == rest[i]);
                } else {
                    assert(stuck_of(s, ps)[i] == ps.last());
                }
            } else {
                assert(stuck_of(s, ps)[i] == rest[i]);
            }
        }
    }
}

/// A queue of injections that are all stuck leaves the objects unchanged.
pub proof fn lemma_inject_all_stuck_id(s: Seq<ObjectModel>, ps: Seq<PendingModel>)
    requires
        forall|i: int| 0 <= i < ps.len() ==> !has_obj(s, #[trigger] ps[i].target),
    ensures
        inject_all(s, ps) == s,
    decreases ps.len(),
{
    if ps.len() > 0 {
        assert(inject_one(s, ps[0]) == s);
        assert(forall|i: int|
            0 <= i < ps.drop_first().len() ==> !has_obj(
                s,
                #[trigger] ps.drop_first()[i].target,
            ));
        lemma_inject_all_stuck_id(s, ps.drop_first());
    }
}

/// A queue of injections that are all stuck is its own stuck queue.
pub proof fn lemma_stuck_of_stuck_id(s: Seq<ObjectModel>, ps: Seq<PendingModel>)
    requires
        forall|i: int| 0 <= i < ps.len() ==> !has_obj(s, #[trigger] ps[i].target),
    ensures
        stuck_of(s, ps) == ps,
    decreases ps.len(),
{
    if ps.len() > 0 {
        assert(forall|i: int|
            0 <= i < ps.drop_last().len() ==> !has_obj(
                s,
                #[trigger] ps.drop_last()[i].target,
            ));
        lemma_stuck_of_stuck_id(s, ps.drop_last());
        assert(stuck_of(s, ps) =~= ps);
    }
}

/// Find the position of the object named `name`, scanning in insertion
/// order.
fn find_object_index(v: &Vec<ObjectDef>, name: &String) -> (r: Option<usize>)
    ensures
        match r {
            Some(i) => i < v@.len() && v@[i as int]@.name == name@,
            None => !has_obj(v@.map_values(|o: ObjectDef| o@), name@),
        },
{
    let n = v.len();
    let mut i: usize = 0;
    while i < n
        invariant
            n == v@.len(),
            i <= n,
            forall|j: int| 0 <= j < i ==> v@[j]@.name != name@,
        decreases n - i,
    {
        if *v[i].key_name() == *name {
            return Some(i);
        }
        i = i + 1;
    }
    proof {
        let m = v@.map_values(|o: ObjectDef| o@);
        assert(forall|j: int| 0 <= j < m.len() ==> #[trigger] m[j].name == v@[j]@.name);
        assert(!has_obj(m, name@));
    }
    None
}

impl Registry {
    /// Object names are pointwise those of `other` (injection never
    /// renames, adds, or removes an object).
    pub open spec fn same_obj_names(&self, other: &Registry) -> bool {
        &&& self.objs().len() == other.objs().len()
        &&& forall|j: int| 0 <= j < self.objs().len() ==> self.objs()[j].name == other.objs()[j].name
    }

    /// One scan of the pending queue in FIFO order: every injection whose
    /// target exists is applied and dropped from the queue; the rest are
    /// requeued unchanged, in order.
    fn scan_pass(&mut self) -> (changed: bool)
        requires
            old(self).wf(),
        ensures
            final(self).wf(),
            final(self).same_but_objects(old(self)),
            final(self).same_obj_names(old(self)),
            final(self).objs() == inject_all(old(self).objs(), old(self).pend()),
            final(self).pend() == stuck_of(old(self).objs(), old(self).pend()),
            changed <==> final(self).pend().len() < old(self).pend().len(),
    {
        let ghost s0 = self.objs();
        let ghost ps = self.pend();
        let n = self.pending_expand_objects.len();
        let mut still: Vec<PendingExpandObject> = Vec::new();
        let mut changed = false;
        let mut k: usize = 0;
        proof {
            assert(ps.take(0) =~= Seq::<PendingModel>::empty());
        }
        while k < n
            invariant
                k <= n,
                n == ps.len(),
                self.wf(),
                self.same_but_objects(old(self)),
                self.same_obj_names(old(self)),
                s0 == old(self).objs(),
                ps == old(self).pend(),
                self.pending_expand_objects@.len() == n - k,
                self.pend() =~= ps.subrange(k as int, n as int),
                self.objs() == inject_all(s0, ps.take(k as int)),
                pend_views(still@) == stuck_of(s0, ps.take(k as int)),
                still@.len() <= k,
                changed <==> still@.len() < k,
            decreases n - k,
        {
            let ghost objs_before = self.objs();
            let ghost types_before = self.types@;
            let ghost still_before = pend_views(still@);
            let ghost pend_vec_before = self.pending_expand_objects@;
            let p = self.pending_expand_objects.remove(0);
            proof {
                assert(pend_views(pend_vec_before)[0] == ps[k as int]);
                assert(p@ == ps[k as int]);
                pend_vec_before.remove_ensures(0);
                assert forall|j: int| 0 <= j < self.pend().len() implies self.pend()[j] == ps[k + 1
                    + j] by {
                    assert(self.pending_expand_objects@[j] == pend_vec_before[j + 1]);
                    assert(pend_views(pend_vec_before)[j + 1] == ps.subrange(k as int, n as int)[j
                        + 1]);
                }
                assert(self.pend() =~= ps.subrange(k as int + 1, n as int));
                assert(ps.take(k as int + 1).drop_last() =~= ps.take(k as int));
                assert(ps.take(k as int + 1).last() == ps[k as int]);
                assert(ps.take(k as int + 1) =~= ps.take(k as int).push(ps[k as int]));
                lemma_inject_all_snoc(s0, ps.take(k as int), ps[k as int]);
                lemma_inject_all_names(s0, ps.take(k as int));
            }
            let found = find_object_index(&self.types, &p.name);
            match found {
                Some(i) => {
                    let PendingExpandObject { name: _, fields: mut pf, implements: mut pi, ctx: _ }
                        = p;
                    let mut obj = self.types.remove(i);
                    obj.fields.append(&mut pf);
                    obj.implements.append(&mut pi);
                    self.types.insert(i, obj);
                    changed = true;
                    proof {
                        let target = ps[k as int].target;
                        assert(objs_before[i as int].name == target);
                        assert(has_obj(objs_before, target));
                        let w = obj_at(objs_before, target);
                        assert(0 <= w < objs_before.len() && objs_before[w].name == target);
                        assert(forall|a: int, b: int|
                            0 <= a < b < objs_before.len() ==> #[trigger] objs_before[a].name
                                != #[trigger] objs_before[b].name) by {
                            assert(keys_unique(types_before));
                            assert(forall|a: int| 0 <= a < objs_before.len()
                                ==> #[trigger] objs_before[a].name == types_before[a].key());
                        }
                        assert(w == i as int);
                        assert(self.types@ =~= types_before.update(i as int, self.types@[i as int]));
                        assert(self.types@[i as int]@.implements =~= objs_before[
                            i as int].implements + ps[k as int].implements);
                        assert(self.objs() =~= inject_one(objs_before, ps[k as int]));
                        assert(self.objs() == inject_all(s0, ps.take(k as int + 1)));
                        assert(stuck_of(s0, ps.take(k as int + 1)) == stuck_of(
                            s0,
                            ps.take(k as int),
                        )) by {
                            lemma_has_obj_names(objs_before, s0, target);
                        }
                        assert(keys_unique(self.types@)) by {
                            assert(forall|j: int|
                                0 <= j < self.types@.len() ==> #[trigger] self.types@[j].key()
                                    == types_before[j].key());
                        }
                    }
                }
                None => {
                    still.push(p);
                    proof {
                        let target = ps[k as int].target;
                        assert(!has_obj(objs_before, target));
                        assert(inject_one(objs_before, ps[k as int]) == objs_before);
                        assert(self.objs() == inject_all(s0, ps.take(k as int + 1)));
                        assert(!has_obj(s0, target)) by {
                            lemma_has_obj_names(objs_before, s0, target);
                        }
                        assert(pend_views(still@) =~= still_before.push(ps[k as int]));
                        assert(stuck_of(s0, ps.take(k as int + 1)) == still_before.push(
                            ps[k as int],
                        ));
                    }
                }
            }
            k = k + 1;
        }
        proof {
            assert(ps.take(n as int) =~= ps);
        }
        self.pending_expand_objects = still;
        changed
    }

    /// Drain the pending injection queue to a fixpoint.  Scans the queue
    /// repeatedly; a scan that makes no progress stops the loop with a
    /// batched diagnostic naming every still-stuck injection.
    fn apply_pending(&mut self) -> (r: Result<(), RegistrationFailure>)
        requires
            old(self).wf(),
        ensures
            final(self).wf(),
            final(self).same_but_objects(old(self)),
            final(self).same_obj_names(old(self)),
            final(self).objs() == inject_all(old(self).objs(), old(self).pend()),
            r is Ok <==> stuck_of(old(self).objs(), old(self).pend()).len() == 0,
            r is Ok ==> final(self).pend().len() == 0,
            r matches Err(f) ==> {
                &&& final(self).pend() == stuck_of(old(self).objs(), old(self).pend())
                &&& err_views(f.errors@) == errs_of(
                    stuck_of(old(self).objs(), old(self).pend()),
                )
            },
    {
        loop
            invariant
                self.wf(),
                self.same_but_objects(old(self)),
                self.same_obj_names(old(self)),
                inject_all(self.objs(), self.pend()) == inject_all(
                    old(self).objs(),
                    old(self).pend(),
                ),
                stuck_of(self.objs(), self.pend()) == stuck_of(old(self).objs(), old(self).pend()),
            decreases self.pend().len(),
        {
            if self.pending_expand_objects.is_empty() {
                proof {
                    assert(self.pend() =~= Seq::<PendingModel>::empty());
                    assert(inject_all(self.objs(), self.pend()) == self.objs());
                    assert(stuck_of(self.objs(), self.pend()) =~= Seq::<PendingModel>::empty());
                }
                return Ok(());
            }
            let ghost objs_before = self.objs();
            let ghost pend_before = self.pend();
            let changed = self.scan_pass();
            proof {
                lemma_inject_all_names(objs_before, pend_before);
                lemma_stuck_elements(objs_before, pend_before);
                let stuck = stuck_of(objs_before, pend_before);
                assert(forall|i: int|
                    0 <= i < stuck.len() ==> !has_obj(self.objs(), #[trigger] stuck[i].target))
                    by {
                    assert forall|i: int| 0 <= i < stuck.len() implies !has_obj(
                        self.objs(),
                        #[trigger] stuck[i].target,
                    ) by {
                        lemma_has_obj_names(self.objs(), objs_before, stuck[i].target);
                    }
                }
                lemma_inject_all_stuck_id(self.objs(), stuck);
                lemma_stuck_of_stuck_id(self.objs(), stuck);
                lemma_stuck_names(self.objs(), objs_before, stuck);
            }
            if !changed {
                let m = self.pending_expand_objects.len();
                let mut errors: Vec<RegistrationError> = Vec::new();
                let mut j: usize = 0;
                proof {
                    assert(err_views(errors@) =~= errs_of(self.pend().take(0)));
                }
                while j < m
                    invariant
                        j <= m,
                        m == self.pending_expand_objects@.len(),
                        err_views(errors@) == errs_of(self.pend().take(j as int)),
                    decreases m - j,
                {
                    let p = &self.pending_expand_objects[j];
                    let e = RegistrationError {
                        target: p.name.clone(),
                        definition: p.ctx.definition.clone(),
                        field: p.ctx.field.clone(),
                    };
                    proof {
                        assert(self.pend()[j as int] == self.pending_expand_objects@[j as int]@);
                        assert(*p == self.pending_expand_objects@[j as int]);
                        assert(e@ == err_of(self.pend()[j as int]));
                    }
                    let ghost ev = e@;
                    let ghost errs0 = errors@;
                    errors.push(e);
                    proof {
                        assert(self.pend().len() == m as int);
                        assert(ev == err_of(self.pend()[j as int]));
                        let lhs = err_views(errors@);
                        let rhs = errs_of(self.pend().take(j as int + 1));
                        assert(err_views(errs0).len() == errs_of(self.pend().take(j as int)).len());
                        assert(errs0.len() == j as int);
                        assert(errors@.len() == j + 1);
                        assert(self.pend().take(j as int + 1).len() == j + 1);
                        assert(lhs.len() == rhs.len());
                        assert forall|i: int| 0 <= i < lhs.len() implies lhs[i] == rhs[i] by {
                            assert(rhs[i] == err_of(self.pend().take(j as int + 1)[i]));
                            assert(self.pend().take(j as int + 1)[i] == self.pend()[i]);
                            if i < j {
                                assert(errors@[i] == errs0[i]);
                                assert(lhs[i] == err_views(errs0)[i]);
                                assert(err_views(errs0)[i] == errs_of(self.pend().take(j as int))[
                                    i]);
                                assert(errs_of(self.pend().take(j as int))[i] == err_of(
                                    self.pend().take(j as int)[i],
                                ));
                                assert(self.pend().take(j as int)[i] == self.pend()[i]);
                            } else {
                                assert(errors@[i] == e);
                                assert(lhs[i] == ev);
                            }
                        }
                        assert(lhs =~= rhs);
                    }
                    j = j + 1;
                }
                proof {
                    assert(self.pend().take(m as int) =~= self.pend());
                }
                return Err(RegistrationFailure { errors });
            }
        }
    }

    /// Assemble the schema: run the injection fixpoint, then lay every
    /// category out in a stable order under the given root operation
    /// types.  Fails, without serving anything, when at least one
    /// injection never found its target; the failure lists exactly the
    /// stuck injections, with their provenance, in arrival order.
    pub fn build_schema(self, query_name: &str, mutation_name: Option<&str>) -> (r: Result<
        Schema,
        RegistrationFailure,
    >)
        requires
            self.wf(),
            self.phase is Accumulating,
        ensures
            r is Ok <==> stuck_of(self.objs(), self.pend()).len() == 0,
            r matches Ok(schema) ==> {
                &&& schema.query_name@ == query_name@
                &&& match mutation_name {
                    Some(m) => schema.mutation_name matches Some(x) && x@ == m@,
                    None => schema.mutation_name is None,
                }
                &&& schema.types@.map_values(|o: ObjectDef| o@) == inject_all(
                    self.objs(),
                    self.pend(),
                )
                &&& schema.enums@ == self.enums@
                &&& schema.unions@ == self.unions@
                &&& schema.interfaces@ == self.interfaces@
                &&& schema.input_types@ == self.input_types@
                &&& schema.extend_types@ == self.extend_types@
            },
            r matches Err(f) ==> err_views(f.errors@) == errs_of(stuck_of(self.objs(), self.pend())),
    {
        let mut s = self;
        s.phase = Phase::Finalizing;
        let res = s.apply_pending();
        match res {
            Ok(()) => {
                s.phase = Phase::Finalized;
                Ok(
                    Schema {
                        query_name: query_name.to_owned(),
                        mutation_name: match mutation_name {
                            Some(m) => Some(m.to_owned()),
                            None => None,
                        },
                        enums: s.enums,
                        unions: s.unions,
                        interfaces: s.interfaces,
                        input_types: s.input_types,
                        types: s.types,
                        extend_types: s.extend_types,
                    },
                )
            },
            Err(f) => {
                s.phase = Phase::Failed;
                Err(f)
            },
        }
    }
}

} // verus!
