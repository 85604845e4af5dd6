//! The dual-mode value resolution protocol: a value becomes a field result
//! either by being consumed (`resolve`) or through a reference whose owner
//! outlives the call (`resolve_ref`).  Both modes produce the same result.
//!
//! Composite rules: an absent option resolves to null with no error; a
//! failed result becomes a field-scoped error; a sequence resolves its
//! elements independently, recording an element's error against that
//! element's index and putting null in its place, without disturbing the
//! other elements.
use vstd::prelude::*;

use crate::types::ConstValue;

verus! {

broadcast use vstd::std_specs::vec::group_vec_axioms;

/// A field-scoped error raised by a resolver.
#[derive(Debug)]
pub struct FieldError {
    pub message: String,
}

impl FieldError {
    pub fn new(message: &str) -> (r: FieldError)
        ensures
            r.message@ == message@,
    {
        FieldError { message: message.to_owned() }
    }
}

impl Clone for FieldError {
    fn clone(&self) -> (r: Self)
        ensures
            r == *self,
    {
        FieldError { message: self.message.clone() }
    }
}

/// A fully resolved response value.  `Null` stands both for an absent
/// optional value and for the hole left by an errored list element.
pub enum FieldValue {
    Null,
    Scalar(ConstValue),
    List(Vec<FieldValue>),
    Object(Vec<(String, FieldValue)>),
}

/// Spec-level image of a resolved response value.
#[verifier::ext_equal]
pub enum ResolvedModel {
    Null,
    Bool(bool),
    Int(int),
    Str(Seq<char>),
    EnumName(Seq<char>),
    List(Seq<ResolvedModel>),
    Object(Seq<(Seq<char>, ResolvedModel)>),
}

impl View for FieldValue {
    type V = ResolvedModel;

    open spec fn view(&self) -> ResolvedModel
        decreases self,
    {
        match self {
            FieldValue::Null => ResolvedModel::Null,
            FieldValue::Scalar(c) => match c {
                ConstValue::Null => ResolvedModel::Null,
                ConstValue::Bool(b) => ResolvedModel::Bool(*b),
                ConstValue::Int(i) => ResolvedModel::Int(*i as int),
                ConstValue::Str(s) => ResolvedModel::Str(s@),
                ConstValue::EnumName(n) => ResolvedModel::EnumName(n@),
            },
            FieldValue::List(vs) => ResolvedModel::List(
                Seq::new(
                    vs@.len(),
                    |i: int|
                        if 0 <= i < vs@.len() {
                            vs@[i].view()
                        } else {
                            ResolvedModel::Null
                        },
                ),
            ),
            FieldValue::Object(fs) => ResolvedModel::Object(
                Seq::new(
                    fs@.len(),
                    |i: int|
                        if 0 <= i < fs@.len() {
                            (fs@[i].0@, fs@[i].1.view())
                        } else {
                            (Seq::empty(), ResolvedModel::Null)
                        },
                ),
            ),
        }
    }
}

/// An error recorded against a position in the response tree.
pub struct ResolvedError {
    pub path: Vec<usize>,
    pub message: String,
}

/// Spec-level image of a recorded error: its path and its message.
#[verifier::ext_equal]
pub struct ErrAt {
    pub path: Seq<int>,
    pub message: Seq<char>,
}

impl View for ResolvedError {
    type V = ErrAt;

    open spec fn view(&self) -> ErrAt {
        ErrAt { path: self.path@.map_values(|u: usize| u as int), message: self.message@ }
    }
}

/// The spec-level images of a vector of recorded errors.
pub open spec fn err_at_views(es: Seq<ResolvedError>) -> Seq<ErrAt> {
    es.map_values(|e: ResolvedError| e@)
}

/// The per-field execution context handed to resolvers: the path of the
/// value currently being resolved, and the errors recorded so far.
pub struct ResolveCtx {
    pub path: Vec<usize>,
    pub errors: Vec<ResolvedError>,
}

impl ResolveCtx {
    /// The current response path, as a spec-level sequence of indexes.
    pub open spec fn epath(&self) -> Seq<int> {
        self.path@.map_values(|u: usize| u as int)
    }

    /// The recorded errors, as spec-level images.
    pub open spec fn errs(&self) -> Seq<ErrAt> {
        err_at_views(self.errors@)
    }

    /// A context at the response root with no errors.
    pub fn new() -> (r: ResolveCtx)
        ensures
            r.epath() == Seq::<int>::empty(),
            r.errs() == Seq::<ErrAt>::empty(),
    {
        let r = ResolveCtx { path: Vec::new(), errors: Vec::new() };
        assert(r.epath() =~= Seq::<int>::empty());
        assert(r.errs() =~= Seq::<ErrAt>::empty());
        r
    }
}

/// Relates an executable resolution result to its spec-level outcome.
pub open spec fn outcome_matches(
    r: Result<Option<FieldValue>, FieldError>,
    m: Result<Option<ResolvedModel>, Seq<char>>,
) -> bool {
    match r {
        Ok(ov) => match m {
            Ok(om) => match ov {
                Some(v) => om matches Some(mv) && v@ == mv,
                None => om is None,
            },
            Err(_) => false,
        },
        Err(e) => m matches Err(ms) && e.message@ == ms,
    }
}

/// The capability a value needs to become a field result.  `res_value`
/// and `res_errors` pin, for every implementation, what both resolution
/// modes return and which errors they record.
pub trait OutputValue: Sized {
    /// The value this resolves to, or the field-scoped error it raises.
    spec fn res_value(&self) -> Result<Option<ResolvedModel>, Seq<char>>;

    /// The errors this records against positions under `path` while
    /// resolving (list elements record theirs at their own index).
    spec fn res_errors(&self, path: Seq<int>) -> Seq<ErrAt>;

    /// Resolve by consuming a freshly constructed value.
    fn resolve(self, ctx: &mut ResolveCtx) -> (r: Result<Option<FieldValue>, FieldError>)
        ensures
            outcome_matches(r, self.res_value()),
            final(ctx).epath() == old(ctx).epath(),
            final(ctx).errs() == old(ctx).errs() + self.res_errors(old(ctx).epath()),
    ;

    /// Resolve through a reference whose owner is still alive; the
    /// outcome is the same as consuming the value would give.
    fn resolve_ref(&self, ctx: &mut ResolveCtx) -> (r: Result<Option<FieldValue>, FieldError>)
        ensures
            outcome_matches(r, self.res_value()),
            final(ctx).epath() == old(ctx).epath(),
            final(ctx).errs() == old(ctx).errs() + self.res_errors(old(ctx).epath()),
    ;
}

impl OutputValue for i64 {
    open spec fn res_value(&self) -> Result<Option<ResolvedModel>, Seq<char>> {
        Ok(Some(ResolvedModel::Int(*self as int)))
    }

    open spec fn res_errors(&self, path: Seq<int>) -> Seq<ErrAt> {
        Seq::empty()
    }

    fn resolve(self, ctx: &mut ResolveCtx) -> (r: Result<Option<FieldValue>, FieldError>) {
        proof {
            assert(ctx.errs() =~= ctx.errs() + Seq::<ErrAt>::empty());
        }
        Ok(Some(FieldValue::Scalar(ConstValue::Int(self))))
    }

    fn resolve_ref(&self, ctx: &mut ResolveCtx) -> (r: Result<Option<FieldValue>, FieldError>) {
        proof {
            assert(ctx.errs() =~= ctx.errs() + Seq::<ErrAt>::empty());
        }
        Ok(Some(FieldValue::Scalar(ConstValue::Int(*self))))
    }
}

impl OutputValue for bool {
    open spec fn res_value(&self) -> Result<Option<ResolvedModel>, Seq<char>> {
        Ok(Some(ResolvedModel::Bool(*self)))
    }

    open spec fn res_errors(&self, path: Seq<int>) -> Seq<ErrAt> {
        Seq::empty()
    }

    fn resolve(self, ctx: &mut ResolveCtx) -> (r: Result<Option<FieldValue>, FieldError>) {
        proof {
            assert(ctx.errs() =~= ctx.errs() + Seq::<ErrAt>::empty());
        }
        Ok(Some(FieldValue::Scalar(ConstValue::Bool(self))))
    }

    fn resolve_ref(&self, ctx: &mut ResolveCtx) -> (r: Result<Option<FieldValue>, FieldError>) {
        proof {
            assert(ctx.errs() =~= ctx.errs() + Seq::<ErrAt>::empty());
        }
        Ok(Some(FieldValue::Scalar(ConstValue::Bool(*self))))
    }
}

impl OutputValue for String {
    open spec fn res_value(&self) -> Result<Option<ResolvedModel>, Seq<char>> {
        Ok(Some(ResolvedModel::Str(self@)))
    }

    open spec fn res_errors(&self, path: Seq<int>) -> Seq<ErrAt> {
        Seq::empty()
    }

    fn resolve(self, ctx: &mut ResolveCtx) -> (r: Result<Option<FieldValue>, FieldError>) {
        proof {
            assert(ctx.errs() =~= ctx.errs() + Seq::<ErrAt>::empty());
        }
        Ok(Some(FieldValue::Scalar(ConstValue::Str(self))))
    }

    fn resolve_ref(&self, ctx: &mut ResolveCtx) -> (r: Result<Option<FieldValue>, FieldError>) {
        proof {
            assert(ctx.errs() =~= ctx.errs() + Seq::<ErrAt>::empty());
        }
        Ok(Some(FieldValue::Scalar(ConstValue::Str(self.clone()))))
    }
}

impl<'a> OutputValue for &'a str {
    open spec fn res_value(&self) -> Result<Option<ResolvedModel>, Seq<char>> {
        Ok(Some(ResolvedModel::Str((*self)@)))
    }

    open spec fn res_errors(&self, path: Seq<int>) -> Seq<ErrAt> {
        Seq::empty()
    }

    fn resolve(self, ctx: &mut ResolveCtx) -> (r: Result<Option<FieldValue>, FieldError>) {
        proof {
            assert(ctx.errs() =~= ctx.errs() + Seq::<ErrAt>::empty());
        }
        Ok(Some(FieldValue::Scalar(ConstValue::Str(self.to_owned()))))
    }

    fn resolve_ref(&self, ctx: &mut ResolveCtx) -> (r: Result<Option<FieldValue>, FieldError>) {
        proof {
            assert(ctx.errs() =~= ctx.errs() + Seq::<ErrAt>::empty());
        }
        Ok(Some(FieldValue::Scalar(ConstValue::Str((*self).to_owned()))))
    }
}

/// An opaque identifier scalar, carried as text.
pub struct Id(pub String);

impl OutputValue for Id {
    open spec fn res_value(&self) -> Result<Option<ResolvedModel>, Seq<char>> {
        Ok(Some(ResolvedModel::Str(self.0@)))
    }

    open spec fn res_errors(&self, path: Seq<int>) -> Seq<ErrAt> {
        Seq::empty()
    }

    fn resolve(self, ctx: &mut ResolveCtx) -> (r: Result<Option<FieldValue>, FieldError>) {
        proof {
            assert(ctx.errs() =~= ctx.errs() + Seq::<ErrAt>::empty());
        }
        Ok(Some(FieldValue::Scalar(ConstValue::Str(self.0))))
    }

    fn resolve_ref(&self, ctx: &mut ResolveCtx) -> (r: Result<Option<FieldValue>, FieldError>) {
        proof {
            assert(ctx.errs() =~= ctx.errs() + Seq::<ErrAt>::empty());
        }
        Ok(Some(FieldValue::Scalar(ConstValue::Str(self.0.clone()))))
    }
}

impl<T: OutputValue> OutputValue for Option<T> {
    open spec fn res_value(&self) -> Result<Option<ResolvedModel>, Seq<char>> {
        match self {
            Option::None => Ok(None),
            Option::Some(v) => v.res_value(),
        }
    }

    open spec fn res_errors(&self, path: Seq<int>) -> Seq<ErrAt> {
        match self {
            Option::None => Seq::empty(),
            Option::Some(v) => v.res_errors(path),
        }
    }

    fn resolve(self, ctx: &mut ResolveCtx) -> (r: Result<Option<FieldValue>, FieldError>) {
        match self {
            Option::None => {
                proof {
                    assert(ctx.errs() =~= ctx.errs() + Seq::<ErrAt>::empty());
                }
                Ok(None)
            },
            Option::Some(v) => v.resolve(ctx),
        }
    }

    fn resolve_ref(&self, ctx: &mut ResolveCtx) -> (r: Result<Option<FieldValue>, FieldError>) {
        match self {
            Option::None => {
                proof {
                    assert(ctx.errs() =~= ctx.errs() + Seq::<ErrAt>::empty());
                }
                Ok(None)
            },
            Option::Some(v) => v.resolve_ref(ctx),
        }
    }
}

impl<T: OutputValue> OutputValue for Result<T, FieldError> {
    open spec fn res_value(&self) -> Result<Option<ResolvedModel>, Seq<char>> {
        match self {
            Result::Ok(v) => v.res_value(),
            Result::Err(e) => Err(e.message@),
        }
    }

    open spec fn res_errors(&self, path: Seq<int>) -> Seq<ErrAt> {
        match self {
            Result::Ok(v) => v.res_errors(path),
            Result::Err(_) => Seq::empty(),
        }
    }

    fn resolve(self, ctx: &mut ResolveCtx) -> (r: Result<Option<FieldValue>, FieldError>) {
        match self {
            Result::Ok(v) => v.resolve(ctx),
            Result::Err(e) => {
                proof {
                    assert(ctx.errs() =~= ctx.errs() + Seq::<ErrAt>::empty());
                }
                Err(e)
            },
        }
    }

    fn resolve_ref(&self, ctx: &mut ResolveCtx) -> (r: Result<Option<FieldValue>, FieldError>) {
        match self {
            Result::Ok(v) => v.resolve_ref(ctx),
            Result::Err(e) => {
                proof {
                    assert(ctx.errs() =~= ctx.errs() + Seq::<ErrAt>::empty());
                }
                Err(e.clone())
            },
        }
    }
}

/// The values a list's elements resolve to, each in place, with null for
/// an absent or errored element.
pub open spec fn list_values<T: OutputValue>(s: Seq<T>) -> Seq<ResolvedModel> {
    Seq::new(s.len(), |i: int| elem_outcome(s[i].res_value()))
}

/// What a list element contributes to the list's value: its own value, or
/// null when it was absent or errored.
pub open spec fn elem_outcome(m: Result<Option<ResolvedModel>, Seq<char>>) -> ResolvedModel {
    match m {
        Ok(om) => match om {
            Some(v) => v,
            None => ResolvedModel::Null,
        },
        Err(_) => ResolvedModel::Null,
    }
}

/// The errors one list element at index `i` records: whatever it records
/// itself, then — when it errored — its own error at its index.
pub open spec fn elem_errors<T: OutputValue>(t: T, path: Seq<int>, i: int) -> Seq<ErrAt> {
    t.res_errors(path.push(i)) + (match t.res_value() {
        Err(ms) => seq![ErrAt { path: path.push(i), message: ms }],
        Ok(_) => Seq::empty(),
    })
}

/// The errors the elements of a list record, in element order.
pub open spec fn list_errors<T: OutputValue>(s: Seq<T>, path: Seq<int>) -> Seq<ErrAt>
    decreases s.len(),
{
    if s.len() == 0 {
        Seq::empty()
    } else {
        list_errors(s.drop_last(), path) + elem_errors(s.last(), path, s.len() - 1)
    }
}

/// An absent option resolves to null with no error recorded; a present
/// option resolves to exactly the carried value's own outcome, with
/// exactly the carried value's own errors — in either resolution mode,
/// since both modes are bound to the same `res_value` and `res_errors`.
pub proof fn lemma_option_resolution<T: OutputValue>(v: Option<T>, path: Seq<int>)
    ensures
        v is None ==> v.res_value() == Ok::<Option<ResolvedModel>, Seq<char>>(None),
        v is None ==> v.res_errors(path) == Seq::<ErrAt>::empty(),
        v matches Some(x) ==> v.res_value() == x.res_value(),
        v matches Some(x) ==> v.res_errors(path) == x.res_errors(path),
{
}

/// A failed result resolves to a field-scoped error carrying its own
/// message; a successful result resolves to exactly the carried value's
/// outcome.
pub proof fn lemma_result_resolution<T: OutputValue>(v: Result<T, FieldError>, path: Seq<int>)
    ensures
        v matches Err(e) ==> v.res_value() == Err::<Option<ResolvedModel>, Seq<char>>(e.message@),
        v matches Err(e) ==> v.res_errors(path) == Seq::<ErrAt>::empty(),
        v matches Ok(x) ==> v.res_value() == x.res_value(),
        v matches Ok(x) ==> v.res_errors(path) == x.res_errors(path),
{
}

/// Error isolation in sequences: when exactly one element errors (and no
/// element records nested errors of its own), the list still resolves to
/// a non-null list of the same length, the erring element's slot is null,
/// every other slot holds that element's own value, and exactly one error
/// is recorded, against the erring element's index.
pub proof fn lemma_list_error_isolation<T: OutputValue>(s: Seq<T>, path: Seq<int>, k: int)
    requires
        0 <= k < s.len(),
        s[k].res_value() is Err,
        forall|i: int| 0 <= i < s.len() && i != k ==> (#[trigger] s[i].res_value()) is Ok,
        forall|i: int|
            0 <= i < s.len() ==> #[trigger] s[i].res_errors(path.push(i)) == Seq::<ErrAt>::empty(),
    ensures
        list_values(s).len() == s.len(),
        list_values(s)[k] == ResolvedModel::Null,
        forall|i: int|
            0 <= i < s.len() && i != k ==> #[trigger] list_values(s)[i] == elem_outcome(
                s[i].res_value(),
            ),
        list_errors(s, path) == seq![
            ErrAt { path: path.push(k), message: s[k].res_value()->Err_0 },
        ],
    decreases s.len(),
{
    let dl = s.drop_last();
    let last = s.last();
    let n = s.len() - 1;
    if k == n {
        assert(elem_errors(last, path, n) =~= seq![
            ErrAt { path: path.push(k), message: s[k].res_value()->Err_0 },
        ]);
        assert(forall|i: int| 0 <= i < dl.len() ==> dl[i] == s[i]);
        lemma_list_no_errors(dl, path);
        assert(list_errors(s, path) =~= seq![
            ErrAt { path: path.push(k), message: s[k].res_value()->Err_0 },
        ]);
    } else {
        assert(forall|i: int| 0 <= i < dl.len() ==> dl[i] == s[i]);
        lemma_list_error_isolation(dl, path, k);
        assert(elem_errors(last, path, n) =~= Seq::<ErrAt>::empty()) by {
            assert(s[n].res_errors(path.push(n)) == Seq::<ErrAt>::empty());
        }
        assert(list_errors(s, path) =~= seq![
            ErrAt { path: path.push(k), message: s[k].res_value()->Err_0 },
        ]);
    }
}

/// A list of elements that neither error nor record errors records no
/// errors itself.
pub proof fn lemma_list_no_errors<T: OutputValue>(s: Seq<T>, path: Seq<int>)
    requires
        forall|i: int| 0 <= i < s.len() ==> (#[trigger] s[i].res_value()) is Ok,
        forall|i: int|
            0 <= i < s.len() ==> #[trigger] s[i].res_errors(path.push(i)) == Seq::<ErrAt>::empty(),
    ensures
        list_errors(s, path) == Seq::<ErrAt>::empty(),
    decreases s.len(),
{
    if s.len() > 0 {
        let dl = s.drop_last();
        assert(forall|i: int| 0 <= i < dl.len() ==> dl[i] == s[i]);
        lemma_list_no_errors(dl, path);
        let n = s.len() - 1;
        assert(elem_errors(s.last(), path, n) =~= Seq::<ErrAt>::empty()) by {
            assert(s[n].res_errors(path.push(n)) == Seq::<ErrAt>::empty());
        }
        assert(list_errors(s, path) =~= Seq::<ErrAt>::empty());
    }
}

/// Copy a response path.
fn copy_path(v: &Vec<usize>) -> (r: Vec<usize>)
    ensures
        r@ == v@,
{
    let n = v.len();
    let mut r: Vec<usize> = Vec::new();
    let mut i: usize = 0;
    while i < n
        invariant
            i <= n,
            n == v@.len(),
            r@ == v@.take(i as int),
        decreases n - i,
    {
        r.push(v[i]);
        proof {
            assert(v@.take(i as int + 1) =~= v@.take(i as int).push(v@[i as int]));
        }
        i = i + 1;
    }
    proof {
        assert(v@.take(n as int) =~= v@);
    }
    r
}

impl<T: OutputValue> OutputValue for Vec<T> {
    open spec fn res_value(&self) -> Result<Option<ResolvedModel>, Seq<char>> {
        Ok(Some(ResolvedModel::List(list_values(self@))))
    }

    open spec fn res_errors(&self, path: Seq<int>) -> Seq<ErrAt> {
        list_errors(self@, path)
    }

    fn resolve(self, ctx: &mut ResolveCtx) -> (r: Result<Option<FieldValue>, FieldError>) {
        self.resolve_ref(ctx)
    }

    fn resolve_ref(&self, ctx: &mut ResolveCtx) -> (r: Result<Option<FieldValue>, FieldError>) {
        let ghost path0 = ctx.epath();
        let ghost errs0 = ctx.errs();
        let n = self.len();
        let mut out: Vec<FieldValue> = Vec::new();
        let mut i: usize = 0;
        proof {
            assert(self@.take(0) =~= Seq::<T>::empty());
            assert(errs0 =~= errs0 + list_errors(self@.take(0), path0));
        }
        while i < n
            invariant
                i <= n,
                n == self@.len(),
                ctx.epath() == path0,
                ctx.errs() == errs0 + list_errors(self@.take(i as int), path0),
                out@.len() == i,
                forall|j: int| 0 <= j < i ==> #[trigger] out@[j]@ == elem_outcome(
                    self@[j].res_value(),
                ),
            decreases n - i,
        {
            let ghost pre_path = ctx.epath();
            let ghost pre_errs = ctx.errs();
            ctx.path.push(i);
            proof {
                assert(ctx.epath() =~= path0.push(i as int));
            }
            let r = self[i].resolve_ref(ctx);
            proof {
                assert(ctx.errs() == pre_errs + self@[i as int].res_errors(path0.push(i as int)));
            }
            match r {
                Ok(Some(v)) => {
                    out.push(v);
                    proof {
                        assert(ctx.errs() =~= errs0 + list_errors(
                            self@.take(i as int + 1),
                            path0,
                        )) by {
                            assert(self@.take(i as int + 1).drop_last() =~= self@.take(i as int));
                            assert(self@.take(i as int + 1).last() == self@[i as int]);
                            assert(elem_errors(self@[i as int], path0, i as int) =~= self@[
                                i as int].res_errors(path0.push(i as int)) + Seq::<
                                ErrAt>::empty());
                        }
                    }
                },
                Ok(None) => {
                    out.push(FieldValue::Null);
                    proof {
                        assert(ctx.errs() =~= errs0 + list_errors(
                            self@.take(i as int + 1),
                            path0,
                        )) by {
                            assert(self@.take(i as int + 1).drop_last() =~= self@.take(i as int));
                            assert(self@.take(i as int + 1).last() == self@[i as int]);
                            assert(elem_errors(self@[i as int], path0, i as int) =~= self@[
                                i as int].res_errors(path0.push(i as int)) + Seq::<
                                ErrAt>::empty());
                        }
                    }
                },
                Err(e) => {
                    let ep = copy_path(&ctx.path);
                    proof {
                        assert(ep@ == ctx.path@);
                        assert(ep@.map_values(|u: usize| u as int) =~= path0.push(i as int));
                    }
                    let ghost pre_push = ctx.errs();
                    ctx.errors.push(ResolvedError { path: ep, message: e.message });
                    out.push(FieldValue::Null);
                    proof {
                        assert(ctx.errs() =~= pre_push.push(
                            ErrAt {
                                path: path0.push(i as int),
                                message: self@[i as int].res_value()->Err_0,
                            },
                        ));
                        assert(ctx.errs() =~= errs0 + list_errors(
                            self@.take(i as int + 1),
                            path0,
                        )) by {
                            assert(self@.take(i as int + 1).drop_last() =~= self@.take(i as int));
                            assert(self@.take(i as int + 1).last() == self@[i as int]);
                        }
                    }
                },
            }
            proof {
                assert(ctx.path@.len() == path0.len() + 1);
            }
            let ghost prevp = ctx.path@;
            let ghost prev_epath = ctx.epath();
            ctx.path.pop();
            proof {
                assert(prev_epath == path0.push(i as int));
                assert forall|j: int| 0 <= j < ctx.path@.len() implies #[trigger] ctx.epath()[j]
                    == path0[j] by {
                    assert(ctx.path@[j] == prevp[j]);
                    assert(prev_epath[j] == prevp[j] as int);
                    assert(prev_epath[j] == path0.push(i as int)[j]);
                }
                assert(ctx.epath() =~= path0);
            }
            i = i + 1;
        }
        proof {
            assert(self@.take(n as int) =~= self@);
        }
        let fv = FieldValue::List(out);
        proof {
            let got = fv@->List_0;
            let want = list_values(self@);
            assert(got.len() == want.len());
            assert forall|j: int| 0 <= j < got.len() implies got[j] == want[j] by {
                assert(got[j] == out@[j]@);
                assert(want[j] == elem_outcome(self@[j].res_value()));
            }
            assert(got =~= want);
            assert(fv@ =~= ResolvedModel::List(list_values(self@)));
        }
        Ok(Some(fv))
    }
}

} // verus!
