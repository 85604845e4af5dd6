//! The erasure boundary for interface and union results: a container that
//! carries either an owned value or a borrowed reference, tagged with the
//! registered type name of the concrete variant chosen at resolution time.
//! The execution engine dispatches on the tag — not on static type
//! information — to decide which fragment applies.
use vstd::prelude::*;

verus! {

/// An ownership-tagged container for a polymorphic field result: an owned
/// value or a borrowed reference, with the concrete variant's registered
/// type name.
pub enum AnyBox<'a, T> {
    Owned(Box<T>, String),
    Borrowed(&'a T, String),
}

impl<'a, T> AnyBox<'a, T> {
    /// The type tag the value was constructed with.
    pub open spec fn tag(&self) -> Seq<char> {
        match self {
            AnyBox::Owned(_, t) => t@,
            AnyBox::Borrowed(_, t) => t@,
        }
    }

    /// The value carried, owned or borrowed.
    pub open spec fn spec_value(&self) -> T {
        match self {
            AnyBox::Owned(v, _) => **v,
            AnyBox::Borrowed(v, _) => **v,
        }
    }

    /// Wrap a freshly constructed value, tagging it with the concrete
    /// type's registered name.
    pub fn new_owned(value: T, ty: String) -> (r: Self)
        ensures
            r is Owned,
            r.tag() == ty@,
            r.spec_value() == value,
    {
        AnyBox::Owned(Box::new(value), ty)
    }

    /// Wrap a reference bound to a still-alive parent, tagging it with the
    /// concrete type's registered name.
    pub fn new_borrowed(value: &'a T, ty: String) -> (r: Self)
        ensures
            r is Borrowed,
            r.tag() == ty@,
            r.spec_value() == *value,
    {
        AnyBox::Borrowed(value, ty)
    }

    /// The type tag, for fragment dispatch.
    pub fn type_tag(&self) -> (r: &String)
        ensures
            r@ == self.tag(),
    {
        match self {
            AnyBox::Owned(_, t) => t,
            AnyBox::Borrowed(_, t) => t,
        }
    }

    /// Borrow the carried value, whichever mode it is held in.
    pub fn value_ref(&self) -> (r: &T)
        ensures
            *r == self.spec_value(),
    {
        match self {
            AnyBox::Owned(v, _) => &**v,
            AnyBox::Borrowed(v, _) => *v,
        }
    }
}

/// Pick the fragment that applies to a value with the given type tag: the
/// first type condition equal to the tag.  A fragment whose condition
/// names a different member is skipped.
pub fn select_fragment(tag: &String, conditions: &Vec<String>) -> (r: Option<usize>)
    ensures
        match r {
            Some(i) => {
                &&& i < conditions@.len()
                &&& conditions@[i as int]@ == tag@
                &&& forall|j: int| 0 <= j < i ==> conditions@[j]@ != tag@
            },
            None => forall|j: int| 0 <= j < conditions@.len() ==> conditions@[j]@ != tag@,
        },
{
    let n = conditions.len();
    let mut i: usize = 0;
    while i < n
        invariant
            i <= n,
            n == conditions@.len(),
            forall|j: int| 0 <= j < i ==> conditions@[j]@ != tag@,
        decreases n - i,
    {
        if *tag == conditions[i] {
            return Some(i);
        }
        i = i + 1;
    }
    None
}

} // verus!
