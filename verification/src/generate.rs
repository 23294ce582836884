//! From the description of a union to its declarations.

use vstd::prelude::*;
use crate::casing::{snake_case_of, to_snake_case};
use crate::model::{UnionModel, UnionSpec, VariantModel, VariantSpec, copy_groups};
use crate::token::{Token, Tokens, copy_whole};

verus! {

/// The three accessors that every case gets.
#[derive(Clone, Copy, Debug, PartialEq, Eq, Structural)]
pub enum AccessorKind {
    /// `is_<token>`: whether the value is this case.
    Is,
    /// `as_<token>`: the payload by shared reference, if the value is this case.
    As,
    /// `as_<token>_mut`: the payload by exclusive reference, if the value is this case.
    AsMut,
}

/// One case of the union type.
#[derive(Clone, Debug, PartialEq, Eq)]
pub struct Case {
    pub attributes: Vec<Vec<Token>>,
    pub name: String,
    /// The type of the one payload slot.
    pub payload: Vec<Token>,
}

/// The mathematical value of a [`Case`].
pub struct CaseModel {
    pub attributes: Seq<Tokens>,
    pub name: Seq<char>,
    pub payload: Tokens,
}

/// One accessor method of the union type.
#[derive(Clone, Debug, PartialEq, Eq)]
pub struct Accessor {
    pub kind: AccessorKind,
    pub name: String,
    pub doc: String,
    /// The position of the case that the accessor answers for.
    pub case: usize,
}

/// The mathematical value of a [`Accessor`].
pub struct AccessorModel {
    pub kind: AccessorKind,
    pub name: Seq<char>,
    pub doc: Seq<char>,
    pub case: int,
}

/// One conversion from a payload type into the union type.
#[derive(Clone, Debug, PartialEq, Eq)]
pub struct Conversion {
    /// The type converted from.
    pub source: Vec<Token>,
    /// The position of the case that the conversion builds.
    pub case: usize,
}

/// The mathematical value of a [`Conversion`].
pub struct ConversionModel {
    pub source: Tokens,
    pub case: int,
}

/// Everything generated for one union.
#[derive(Clone, Debug, PartialEq, Eq)]
pub struct DeclarationSet {
    pub attributes: Vec<Vec<Token>>,
    pub visibility: Vec<Token>,
    pub name: String,
    pub cases: Vec<Case>,
    pub accessors: Vec<Accessor>,
    pub conversions: Vec<Conversion>,
}

/// The mathematical value of a [`DeclarationSet`].
pub struct DeclarationModel {
    pub attributes: Seq<Tokens>,
    pub visibility: Tokens,
    pub name: Seq<char>,
    pub cases: Seq<CaseModel>,
    pub accessors: Seq<AccessorModel>,
    pub conversions: Seq<ConversionModel>,
}

impl View for Case {
    type V = CaseModel;

    open spec fn view(&self) -> CaseModel {
        CaseModel {
            attributes: self.attributes.deep_view(),
            name: self.name@,
            payload: self.payload.deep_view(),
        }
    }
}

impl DeepView for Case {
    type V = CaseModel;

    open spec fn deep_view(&self) -> CaseModel {
        self@
    }
}

impl View for Accessor {
    type V = AccessorModel;

    open spec fn view(&self) -> AccessorModel {
        AccessorModel { kind: self.kind, name: self.name@, doc: self.doc@, case: self.case as int }
    }
}

impl DeepView for Accessor {
    type V = AccessorModel;

    open spec fn deep_view(&self) -> AccessorModel {
        self@
    }
}

impl View for Conversion {
    type V = ConversionModel;

    open spec fn view(&self) -> ConversionModel {
        ConversionModel { source: self.source.deep_view(), case: self.case as int }
    }
}

impl DeepView for Conversion {
    type V = ConversionModel;

    open spec fn deep_view(&self) -> ConversionModel {
        self@
    }
}

impl View for DeclarationSet {
    type V = DeclarationModel;

    open spec fn view(&self) -> DeclarationModel {
        DeclarationModel {
            attributes: self.attributes.deep_view(),
            visibility: self.visibility.deep_view(),
            name: self.name@,
            cases: self.cases.deep_view(),
            accessors: self.accessors.deep_view(),
            conversions: self.conversions.deep_view(),
        }
    }
}

impl DeclarationModel {
    /// Every accessor and every conversion points at a case that exists.
    pub open spec fn well_formed(self) -> bool {
        &&& forall|j: int| 0 <= j < self.accessors.len() ==> 0 <= (#[trigger] self.accessors[j]).case < self.cases.len()
        &&& forall|i: int| 0 <= i < self.conversions.len() ==> 0 <= (#[trigger] self.conversions[i]).case < self.cases.len()
    }
}

/// The name of an accessor, from its kind and the snake case token of its case.
pub open spec fn accessor_name(kind: AccessorKind, token: Seq<char>) -> Seq<char> {
    match kind {
        AccessorKind::Is => "is_"@ + token,
        AccessorKind::As => "as_"@ + token,
        AccessorKind::AsMut => "as_"@ + token + "_mut"@,
    }
}

/// How the documentation of an accessor begins.
pub open spec fn doc_lead(kind: AccessorKind) -> Seq<char> {
    match kind {
        AccessorKind::Is => "Checks whether this [`"@,
        _ => "Attempts to cast this [`"@,
    }
}

/// What stands between the union's name and the case's name in the
/// documentation of an accessor.
pub open spec fn doc_link(kind: AccessorKind) -> Seq<char> {
    match kind {
        AccessorKind::Is => "`] is a [`"@,
        AccessorKind::As => "`] to a reference to the underlying [`"@,
        AccessorKind::AsMut => "`] to a mutable reference to the underlying [`"@,
    }
}

/// The documentation of an accessor: it names the union and links to the case.
pub open spec fn accessor_doc(kind: AccessorKind, union: Seq<char>, variant: Seq<char>) -> Seq<
    char,
> {
    doc_lead(kind) + union + doc_link(kind) + variant + "`]("@ + union + "::"@ + variant + ")."@
}

/// The accessor of one kind for the case at position `case`.
pub open spec fn accessor_of(kind: AccessorKind, union: Seq<char>, variant: Seq<char>, case: int)
    -> AccessorModel {
    AccessorModel {
        kind,
        name: accessor_name(kind, snake_case_of(variant)),
        doc: accessor_doc(kind, union, variant),
        case,
    }
}

/// The kind of the accessor at each of the three places of a case.
pub open spec fn kind_at(place: int) -> AccessorKind {
    if place == 0 {
        AccessorKind::Is
    } else if place == 1 {
        AccessorKind::As
    } else {
        AccessorKind::AsMut
    }
}

/// The case generated for a variant.
pub open spec fn case_of(v: VariantModel) -> CaseModel {
    CaseModel { attributes: v.attributes, name: v.name, payload: v.resolved_type() }
}

/// What is generated for a union: its cases in declaration order, for each
/// case in turn its three accessors, and one conversion per case.
pub open spec fn declarations_of(u: UnionModel) -> DeclarationModel {
    DeclarationModel {
        attributes: u.attributes,
        visibility: u.visibility,
        name: u.name,
        cases: Seq::new(u.variants.len(), |i: int| case_of(u.variants[i])),
        accessors: Seq::new(
            3 * u.variants.len(),
            |j: int| accessor_of(kind_at(j % 3), u.name, u.variants[j / 3].name, j / 3),
        ),
        conversions: Seq::new(
            u.variants.len(),
            |i: int| ConversionModel { source: u.variants[i].resolved_type(), case: i },
        ),
    }
}

/// Builds the name of an accessor from the snake case token of its case.
pub fn make_accessor_name(kind: AccessorKind, token: &str) -> (out: String)
    ensures
        out@ == accessor_name(kind, token@),
{
    match kind {
        AccessorKind::Is => String::from_str("is_").concat(token),
        AccessorKind::As => String::from_str("as_").concat(token),
        AccessorKind::AsMut => String::from_str("as_").concat(token).concat("_mut"),
    }
}

/// Builds the documentation of an accessor.
pub fn make_accessor_doc(kind: AccessorKind, union: &str, variant: &str) -> (out: String)
    ensures
        out@ == accessor_doc(kind, union@, variant@),
{
    let lead = match kind {
        AccessorKind::Is => "Checks whether this [`",
        _ => "Attempts to cast this [`",
    };
    let link = match kind {
        AccessorKind::Is => "`] is a [`",
        AccessorKind::As => "`] to a reference to the underlying [`",
        AccessorKind::AsMut => "`] to a mutable reference to the underlying [`",
    };
    String::from_str(lead).concat(union).concat(link).concat(variant).concat("`](").concat(
        union,
    ).concat("::").concat(variant).concat(").")
}

/// Builds one accessor for the case at position `case`.
pub fn make_accessor(kind: AccessorKind, union: &str, variant: &str, case: usize) -> (out: Accessor)
    ensures
        out@ == accessor_of(kind, union@, variant@, case as int),
{
    let token = to_snake_case(variant);
    Accessor {
        kind,
        name: make_accessor_name(kind, token.as_str()),
        doc: make_accessor_doc(kind, union, variant),
        case,
    }
}

/// Builds the case of a variant.
pub fn make_case(v: &VariantSpec) -> (out: Case)
    ensures
        out@ == case_of(v@),
{
    Case { attributes: copy_groups(&v.attributes), name: v.name.clone(), payload: v.resolved_type() }
}

/// Generates the declarations of a union. This never fails: an empty union
/// yields a type without cases, accessors or conversions.
pub fn generate(u: &UnionSpec) -> (d: DeclarationSet)
    ensures
        d@ == declarations_of(u@),
        d@.well_formed(),
        d.cases.len() == u.variants.len(),
        d.accessors.len() == 3 * u.variants.len(),
        d.conversions.len() == u.variants.len(),
        forall|j: int|
            0 <= j < d.accessors.len() ==> (#[trigger] d.accessors[j]).case == j / 3
                && d.accessors[j].kind == kind_at(j % 3),
        forall|i: int| 0 <= i < d.conversions.len() ==> (#[trigger] d.conversions[i]).case == i,
{
    let mut cases: Vec<Case> = Vec::new();
    let mut accessors: Vec<Accessor> = Vec::new();
    let mut conversions: Vec<Conversion> = Vec::new();
    let ghost target = declarations_of(u@);
    let mut i: usize = 0;
    while i < u.variants.len()
        invariant
            i <= u.variants.len(),
            target == declarations_of(u@),
            cases.len() == i,
            accessors.len() == 3 * i,
            conversions.len() == i,
            forall|k: int| 0 <= k < i ==> (#[trigger] cases[k])@ == target.cases[k],
            forall|k: int| 0 <= k < 3 * i ==> (#[trigger] accessors[k])@ == target.accessors[k],
            forall|k: int| 0 <= k < i ==> (#[trigger] conversions[k])@ == target.conversions[k],
        decreases u.variants.len() - i,
    {
        let v = &u.variants[i];
        assert(u@.variants[i as int] == v@);
        cases.push(make_case(v));
        accessors.push(make_accessor(AccessorKind::Is, u.name.as_str(), v.name.as_str(), i));
        accessors.push(make_accessor(AccessorKind::As, u.name.as_str(), v.name.as_str(), i));
        accessors.push(make_accessor(AccessorKind::AsMut, u.name.as_str(), v.name.as_str(), i));
        conversions.push(Conversion { source: v.resolved_type(), case: i });
        i += 1;
    }
    let d = DeclarationSet {
        attributes: copy_groups(&u.attributes),
        visibility: copy_whole(&u.visibility),
        name: u.name.clone(),
        cases,
        accessors,
        conversions,
    };
    proof {
        assert(d@.cases =~= target.cases);
        assert(d@.accessors =~= target.accessors);
        assert(d@.conversions =~= target.conversions);
        assert forall|j: int| 0 <= j < d.accessors.len() implies (#[trigger] d.accessors[j]).case
            == j / 3 && d.accessors[j].kind == kind_at(j % 3) by {
            assert(d.accessors[j]@ == target.accessors[j]);
        }
        assert forall|i: int| 0 <= i < d.conversions.len() implies (
        #[trigger] d.conversions[i]).case == i by {
            assert(d.conversions[i]@ == target.conversions[i]);
        }
    }
    d
}

} // verus!
