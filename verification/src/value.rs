//! What the generated accessors and conversions do to a value of the union.
//!
//! A value of a union is one case, by its position among the cases, and the
//! payload of that case. Every accessor follows one rule: it compares the
//! value's case with its own.

use vstd::prelude::*;
use crate::generate::{
    Accessor, AccessorKind, AccessorModel, Conversion, ConversionModel, DeclarationSet,
    declarations_of,
};
use crate::model::UnionModel;

verus! {

/// A value of a union: the position of its case and the payload it carries.
#[derive(Clone, Debug, PartialEq, Eq)]
pub struct UnionValue<T> {
    pub case: usize,
    pub payload: T,
}

impl AccessorModel {
    /// Whether a value in case `case` is the case of this accessor.
    pub open spec fn matches(self, case: int) -> bool {
        self.case == case
    }

    /// What the casting accessors give for a value in case `case` that
    /// carries `payload`.
    pub open spec fn project<T>(self, case: int, payload: T) -> Option<T> {
        if self.matches(case) {
            Some(payload)
        } else {
            None
        }
    }
}

impl ConversionModel {
    /// The case of the value that the conversion builds.
    pub open spec fn built_case(self) -> int {
        self.case
    }
}

/// Where the accessor of one kind for the case at position `case` stands
/// among the accessors.
pub open spec fn accessor_position(case: int, kind: AccessorKind) -> int {
    3 * case + match kind {
        AccessorKind::Is => 0int,
        AccessorKind::As => 1int,
        AccessorKind::AsMut => 2int,
    }
}

impl Accessor {
    /// The predicate: whether `value` is in the case of this accessor.
    pub fn check<T>(&self, value: &UnionValue<T>) -> (b: bool)
        ensures
            b == self@.matches(value.case as int),
    {
        value.case == self.case
    }

    /// The shared cast: the payload of `value` if it is in the case of this
    /// accessor, else nothing.
    pub fn get<'a, T>(&self, value: &'a UnionValue<T>) -> (r: Option<&'a T>)
        ensures
            r == self@.project(value.case as int, &value.payload),
    {
        if value.case == self.case {
            Some(&value.payload)
        } else {
            None
        }
    }

    /// The exclusive cast: the payload of `value` if it is in the case of
    /// this accessor, else nothing. What is written through the reference
    /// becomes the payload; the case stays.
    pub fn get_mut<'a, T>(&self, value: &'a mut UnionValue<T>) -> (r: Option<&'a mut T>)
        ensures
            r is Some == self@.matches(old(value).case as int),
            final(value).case == old(value).case,
            match r {
                Some(p) => *p == old(value).payload && final(value).payload == *final(p),
                None => final(value).payload == old(value).payload,
            },
    {
        if value.case == self.case {
            Some(&mut value.payload)
        } else {
            None
        }
    }

    /// Writes `payload` through the exclusive cast. Says whether the value was
    /// in the case of this accessor; if not, the value is unchanged.
    pub fn set<T>(&self, value: &mut UnionValue<T>, payload: T) -> (done: bool)
        ensures
            done == self@.matches(old(value).case as int),
            final(value).case == old(value).case,
            done ==> final(value).payload == payload,
            !done ==> final(value).payload == old(value).payload,
            self@.project(final(value).case as int, final(value).payload) == (if done {
                Some(payload)
            } else {
                None
            }),
    {
        match self.get_mut(value) {
            Some(p) => {
                *p = payload;
                true
            },
            None => false,
        }
    }
}

impl Conversion {
    /// Wraps `payload` into a value of the case of this conversion.
    pub fn wrap<T>(&self, payload: T) -> (v: UnionValue<T>)
        ensures
            v.case as int == self@.built_case(),
            v.payload == payload,
    {
        UnionValue { case: self.case, payload }
    }
}

impl DeclarationSet {
    /// The position of the first accessor named `name`, if there is one.
    pub fn find_accessor(&self, name: &str) -> (r: Option<usize>)
        ensures
            match r {
                Some(j) => j < self.accessors.len() && self.accessors[j as int].name@ == name@
                    && forall|k: int| 0 <= k < j ==> (#[trigger] self.accessors[k]).name@ != name@,
                None => forall|k: int|
                    0 <= k < self.accessors.len() ==> (#[trigger] self.accessors[k]).name@ != name@,
            },
    {
        let wanted = String::from_str(name);
        let mut j: usize = 0;
        while j < self.accessors.len()
            invariant
                j <= self.accessors.len(),
                wanted@ == name@,
                forall|k: int| 0 <= k < j ==> (#[trigger] self.accessors[k]).name@ != name@,
            decreases self.accessors.len() - j,
        {
            if self.accessors[j].name == wanted {
                return Some(j);
            }
            j += 1;
        }
        None
    }

    /// The position of the first case named `name`, if there is one.
    pub fn find_case(&self, name: &str) -> (r: Option<usize>)
        ensures
            match r {
                Some(i) => i < self.cases.len() && self.cases[i as int].name@ == name@
                    && forall|k: int| 0 <= k < i ==> (#[trigger] self.cases[k]).name@ != name@,
                None => forall|k: int|
                    0 <= k < self.cases.len() ==> (#[trigger] self.cases[k]).name@ != name@,
            },
    {
        let wanted = String::from_str(name);
        let mut i: usize = 0;
        while i < self.cases.len()
            invariant
                i <= self.cases.len(),
                wanted@ == name@,
                forall|k: int| 0 <= k < i ==> (#[trigger] self.cases[k]).name@ != name@,
            decreases self.cases.len() - i,
        {
            if self.cases[i].name == wanted {
                return Some(i);
            }
            i += 1;
        }
        None
    }
}

/// A union of N variants gets exactly N cases, 3N accessors and N conversions.
pub proof fn law_counts(u: UnionModel)
    ensures
        declarations_of(u).cases.len() == u.variants.len(),
        declarations_of(u).accessors.len() == 3 * u.variants.len(),
        declarations_of(u).conversions.len() == u.variants.len(),
{
}

/// The cases stand in the order of the variants: the case at each position
/// has the name, the annotations and the payload type of the variant there.
pub proof fn law_order_preserved(u: UnionModel, i: int)
    requires
        0 <= i < u.variants.len(),
    ensures
        declarations_of(u).cases[i].name == u.variants[i].name,
        declarations_of(u).cases[i].attributes == u.variants[i].attributes,
        declarations_of(u).cases[i].payload == u.variants[i].resolved_type(),
        declarations_of(u).conversions[i].source == u.variants[i].resolved_type(),
{
}

/// Each variant has its three accessors, of the three kinds, and all three
/// answer for the case of that variant.
pub proof fn law_three_accessors(u: UnionModel, i: int, kind: AccessorKind)
    requires
        0 <= i < u.variants.len(),
    ensures
        0 <= accessor_position(i, kind) < declarations_of(u).accessors.len(),
        declarations_of(u).accessors[accessor_position(i, kind)].kind == kind,
        declarations_of(u).accessors[accessor_position(i, kind)].case == i,
{
}

/// For a value in one of the cases, the predicate of a variant is true if and
/// only if the value is in the case of that variant: one predicate is true,
/// all others are false.
pub proof fn law_one_predicate(u: UnionModel, case: int, i: int)
    requires
        0 <= case < u.variants.len(),
        0 <= i < u.variants.len(),
    ensures
        declarations_of(u).accessors[accessor_position(i, AccessorKind::Is)].matches(case) <==> i
            == case,
{
}

/// Both casts of a variant give the payload if and only if the predicate of
/// that variant is true, and nothing otherwise.
pub proof fn law_cast_presence<T>(u: UnionModel, case: int, payload: T, i: int)
    requires
        0 <= case < u.variants.len(),
        0 <= i < u.variants.len(),
    ensures
        ({
            let d = declarations_of(u);
            let present = d.accessors[accessor_position(i, AccessorKind::Is)].matches(case);
            let shared = d.accessors[accessor_position(i, AccessorKind::As)].project(case, payload);
            let exclusive = d.accessors[accessor_position(i, AccessorKind::AsMut)].project(
                case,
                payload,
            );
            &&& present ==> shared == Some(payload) && exclusive == Some(payload)
            &&& !present ==> shared.is_none() && exclusive.is_none()
        }),
{
}

/// The conversion of a variant builds a value for which the predicate of that
/// variant is true and the predicate of every other variant is false.
pub proof fn law_conversion_case(u: UnionModel, v: int, i: int)
    requires
        0 <= v < u.variants.len(),
        0 <= i < u.variants.len(),
    ensures
        ({
            let d = declarations_of(u);
            d.accessors[accessor_position(i, AccessorKind::Is)].matches(
                d.conversions[v].built_case(),
            ) <==> i == v
        }),
{
}

} // verus!
