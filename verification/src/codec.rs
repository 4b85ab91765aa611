//! Encoding of package reports into a structured interchange format
//! and the decoder back, proved to round-trip.

use vstd::prelude::*;

use crate::Authors;
use crate::AuthorsView;
use crate::License;
use crate::LicenseView;
use crate::Package;
use crate::PackageView;
use crate::opt_str_view;

verus! {

broadcast use vstd::std_specs::vec::axiom_vec_decreases_to_view, vstd::seq::axiom_seq_index_decreases;

/// A node of the structured interchange format: nothing, a string,
/// or a list of nodes.
#[derive(Debug, PartialEq, Eq)]
pub enum Value {
    Null,
    Str(String),
    List(Vec<Value>),
}

/// Mathematical value of an interchange node.
#[verifier::ext_equal]
pub enum ValueView {
    Null,
    Str(Seq<char>),
    List(Seq<ValueView>),
}

/// The mathematical value of an interchange node, child by child.
pub open spec fn value_view(v: Value) -> ValueView
    decreases v,
{
    match v {
        Value::Null => ValueView::Null,
        Value::Str(s) => ValueView::Str(s@),
        Value::List(items) => ValueView::List(values_view(items@)),
    }
}

/// The mathematical values of a list of interchange nodes.
pub open spec fn values_view(s: Seq<Value>) -> Seq<ValueView>
    decreases s,
{
    if s.len() == 0 {
        Seq::empty()
    } else {
        values_view(s.drop_last()).push(value_view(s.last()))
    }
}

/// The view of a node list is the list of the nodes' views.
pub proof fn lemma_values_view(s: Seq<Value>)
    ensures
        values_view(s).len() == s.len(),
        forall|i: int| 0 <= i < s.len() ==> values_view(s)[i] == value_view(s[i]),
    decreases s.len(),
{
    if s.len() == 0 {
    } else {
        lemma_values_view(s.drop_last());
        assert forall|i: int| 0 <= i < s.len() implies values_view(s)[i] == value_view(s[i]) by {
            if i < s.len() - 1 {
                assert(s.drop_last()[i] == s[i]);
            }
        }
    }
}

impl View for Value {
    type V = ValueView;

    open spec fn view(&self) -> ValueView {
        value_view(*self)
    }
}

/// The string a node carries, when it is a string node.
pub open spec fn str_of(v: ValueView) -> Seq<char>
    recommends
        v is Str,
{
    match v {
        ValueView::Str(s) => s,
        _ => Seq::empty(),
    }
}

/// Every node of the list is a string node.
pub open spec fn all_strs(items: Seq<ValueView>) -> bool {
    forall|i: int| 0 <= i < items.len() ==> items[i] is Str
}

/// The strings a list of string nodes carries.
pub open spec fn strs_of(items: Seq<ValueView>) -> Seq<Seq<char>> {
    items.map_values(|it: ValueView| str_of(it))
}

/// String nodes for a list of strings.
pub open spec fn strs_to_values(names: Seq<Seq<char>>) -> Seq<ValueView> {
    names.map_values(|n: Seq<char>| ValueView::Str(n))
}

/// How an author field is encoded: one name as a string node, several
/// as a list of string nodes.
pub open spec fn spec_encode_authors(a: AuthorsView) -> ValueView {
    match a {
        AuthorsView::Single(s) => ValueView::Str(s),
        AuthorsView::Multiple(names) => ValueView::List(strs_to_values(names)),
    }
}

/// Decodes an author field.
pub open spec fn spec_decode_authors(v: ValueView) -> Option<AuthorsView> {
    match v {
        ValueView::Str(s) => Option::Some(AuthorsView::Single(s)),
        ValueView::List(items) => if all_strs(items) {
            Option::Some(AuthorsView::Multiple(strs_of(items)))
        } else {
            Option::None
        },
        ValueView::Null => Option::None,
    }
}

/// How an optional string is encoded: the string itself, or nothing.
pub open spec fn spec_encode_opt(o: Option<Seq<char>>) -> ValueView {
    match o {
        Option::Some(s) => ValueView::Str(s),
        Option::None => ValueView::Null,
    }
}

/// Decodes an optional string.
pub open spec fn spec_decode_opt(v: ValueView) -> Option<Option<Seq<char>>> {
    match v {
        ValueView::Null => Option::Some(Option::None),
        ValueView::Str(s) => Option::Some(Option::Some(s)),
        ValueView::List(_) => Option::None,
    }
}

/// Decodes a list of string nodes.
pub open spec fn spec_decode_strs(v: ValueView) -> Option<Seq<Seq<char>>> {
    match v {
        ValueView::List(items) => if all_strs(items) {
            Option::Some(strs_of(items))
        } else {
            Option::None
        },
        _ => Option::None,
    }
}

/// How a classification outcome is encoded: a valid license as its
/// three strings, an unrecognized one as an empty list, an absent one
/// as nothing.
pub open spec fn spec_encode_license(l: LicenseView) -> ValueView {
    match l {
        LicenseView::Valid { name, id, category } => ValueView::List(
            seq![ValueView::Str(name), ValueView::Str(id), ValueView::Str(category)],
        ),
        LicenseView::Unrecognized => ValueView::List(Seq::empty()),
        LicenseView::Absent => ValueView::Null,
    }
}

/// Decodes a classification outcome.
pub open spec fn spec_decode_license(v: ValueView) -> Option<LicenseView> {
    match v {
        ValueView::Null => Option::Some(LicenseView::Absent),
        ValueView::List(items) => if items.len() == 0 {
            Option::Some(LicenseView::Unrecognized)
        } else if items.len() == 3 && items[0] is Str && items[1] is Str && items[2] is Str {
            Option::Some(LicenseView::Valid {
                name: str_of(items[0]),
                id: str_of(items[1]),
                category: str_of(items[2]),
            })
        } else {
            Option::None
        },
        ValueView::Str(_) => Option::None,
    }
}

/// How a package report is encoded: a list of seven nodes, one per
/// field, in declaration order.
pub open spec fn spec_encode(p: PackageView) -> ValueView {
    ValueView::List(
        seq![
            ValueView::Str(p.package_name),
            spec_encode_authors(p.authors),
            spec_encode_opt(p.home),
            spec_encode_opt(p.repo),
            ValueView::List(strs_to_values(p.depends)),
            ValueView::List(strs_to_values(p.depended)),
            spec_encode_license(p.license),
        ],
    )
}

/// Decodes a package report, or nothing when the node does not have
/// the encoded shape.
pub open spec fn spec_decode(v: ValueView) -> Option<PackageView> {
    match v {
        ValueView::List(items) => if items.len() == 7 {
            match (items[0], spec_decode_authors(items[1]), spec_decode_opt(items[2]),
            spec_decode_opt(items[3]), spec_decode_strs(items[4]), spec_decode_strs(items[5]),
            spec_decode_license(items[6])) {
                (
                    ValueView::Str(package_name),
                    Option::Some(authors),
                    Option::Some(home),
                    Option::Some(repo),
                    Option::Some(depends),
                    Option::Some(depended),
                    Option::Some(license),
                ) => Option::Some(
                    PackageView { package_name, authors, home, repo, depends, depended, license },
                ),
                _ => Option::None,
            }
        } else {
            Option::None
        },
        _ => Option::None,
    }
}

/// Round trip: decoding an encoded package report yields the
/// original, field for field.
pub proof fn lemma_round_trip(p: PackageView)
    ensures
        spec_decode(spec_encode(p)) == Option::Some(p),
{
    assert(strs_of(strs_to_values(p.depends)) =~= p.depends);
    assert(strs_of(strs_to_values(p.depended)) =~= p.depended);
    match p.authors {
        AuthorsView::Single(_) => {},
        AuthorsView::Multiple(names) => {
            assert(strs_of(strs_to_values(names)) =~= names);
        },
    }
    assert(spec_decode(spec_encode(p)) matches Option::Some(q) && q =~= p);
}

fn encode_strs(names: &Vec<String>) -> (v: Value)
    ensures
        v@ == ValueView::List(strs_to_values(names.deep_view())),
{
    let mut items: Vec<Value> = Vec::new();
    let mut i: usize = 0;
    while i < names.len()
        invariant
            i <= names.len(),
            items@.len() == i,
            forall|j: int| 0 <= j < i ==> items@[j] == Value::Str(names@[j]),
        decreases names.len() - i,
    {
        items.push(Value::Str(names[i].clone()));
        i += 1;
    }
    let v = Value::List(items);
    proof {
        lemma_values_view(items@);
        assert forall|j: int| 0 <= j < items@.len()
            implies values_view(items@)[j] == ValueView::Str(names.deep_view()[j]) by {
            assert(items@[j] == Value::Str(names@[j]));
        }
        assert(v@ matches ValueView::List(s) && s =~= strs_to_values(names.deep_view()));
    }
    v
}

fn encode_authors(a: &Authors) -> (v: Value)
    ensures
        v@ == spec_encode_authors(a@),
{
    match a {
        Authors::Single(s) => Value::Str(s.clone()),
        Authors::Multiple(names) => encode_strs(names),
    }
}

fn encode_opt(o: &Option<String>) -> (v: Value)
    ensures
        v@ == spec_encode_opt(opt_str_view(*o)),
{
    match o {
        Option::Some(s) => Value::Str(s.clone()),
        Option::None => Value::Null,
    }
}

fn encode_license(l: &License) -> (v: Value)
    ensures
        v@ == spec_encode_license(l@),
{
    match l {
        License::Valid { name, id, category } => {
            let mut items: Vec<Value> = Vec::new();
            items.push(Value::Str(name.clone()));
            items.push(Value::Str(id.clone()));
            items.push(Value::Str(category.clone()));
            let v = Value::List(items);
            proof {
                lemma_values_view(items@);
                assert(v@ matches ValueView::List(s) && s =~= seq![
                    ValueView::Str(name@),
                    ValueView::Str(id@),
                    ValueView::Str(category@),
                ]);
            }
            v
        },
        License::Unrecognized => {
            let items: Vec<Value> = Vec::new();
            let v = Value::List(items);
            proof {
                lemma_values_view(items@);
                assert(v@ matches ValueView::List(s) && s =~= Seq::<ValueView>::empty());
            }
            v
        },
        License::Absent => Value::Null,
    }
}

/// Encodes a package report into the interchange format.
pub fn encode(p: &Package) -> (v: Value)
    ensures
        v@ == spec_encode(p@),
{
    let mut items: Vec<Value> = Vec::new();
    items.push(Value::Str(p.package_name.clone()));
    items.push(encode_authors(&p.authors));
    items.push(encode_opt(&p.home));
    items.push(encode_opt(&p.repo));
    items.push(encode_strs(&p.depends));
    items.push(encode_strs(&p.depended));
    items.push(encode_license(&p.license));
    let v = Value::List(items);
    proof {
        lemma_values_view(items@);
        assert(v@ matches ValueView::List(s) && s =~= seq![
            ValueView::Str(p.package_name@),
            spec_encode_authors(p.authors@),
            spec_encode_opt(opt_str_view(p.home)),
            spec_encode_opt(opt_str_view(p.repo)),
            ValueView::List(strs_to_values(p.depends.deep_view())),
            ValueView::List(strs_to_values(p.depended.deep_view())),
            spec_encode_license(p.license@),
        ]);
    }
    v
}

#[verifier::loop_isolation(false)]
fn decode_strs(v: &Value) -> (r: Option<Vec<String>>)
    ensures
        match r {
            Option::Some(names) => spec_decode_strs(v@) == Option::Some(names.deep_view()),
            Option::None => spec_decode_strs(v@) is None,
        },
{
    match v {
        Value::List(items) => {
            let mut names: Vec<String> = Vec::new();
            let mut i: usize = 0;
            while i < items.len()
                invariant
                    i <= items@.len(),
                    names@.len() == i,
                    forall|j: int| 0 <= j < i ==> items@[j] is Str,
                    forall|j: int| 0 <= j < i
                        ==> names.deep_view()[j] == str_of(value_view(items@[j])),
                decreases items@.len() - i,
            {
                match &items[i] {
                    Value::Str(s) => {
                        let ghost pre = names;
                        names.push(s.clone());
                        proof {
                            assert(items@[i as int] is Str);
                            assert(value_view(items@[i as int]) == ValueView::Str(s@));
                            assert forall|j: int| 0 <= j < i + 1
                                implies names.deep_view()[j] == str_of(value_view(items@[j])) by {
                                if j < i {
                                    assert(names@[j] == pre@[j]);
                                    assert(pre.deep_view()[j] == str_of(value_view(items@[j])));
                                } else {
                                    assert(names@[j]@ == s@);
                                }
                            }
                        }
                    },
                    _ => {
                        proof {
                            lemma_values_view(items@);
                            assert(!(value_view(items@[i as int]) is Str));
                            assert(!(values_view(items@)[i as int] is Str));
                            assert(!all_strs(values_view(items@)));
                        }
                        return Option::None;
                    },
                }
                i += 1;
            }
            proof {
                lemma_values_view(items@);
                assert forall|k: int| 0 <= k < values_view(items@).len()
                    implies values_view(items@)[k] is Str by {
                    assert(items@[k] is Str);
                }
                assert(all_strs(values_view(items@)));
                assert(names.deep_view() =~= strs_of(values_view(items@)));
            }
            Option::Some(names)
        },
        Value::Str(_) => Option::None,
        Value::Null => Option::None,
    }
}

fn decode_authors(v: &Value) -> (r: Option<Authors>)
    ensures
        match r {
            Option::Some(a) => spec_decode_authors(v@) == Option::Some(a@),
            Option::None => spec_decode_authors(v@) is None,
        },
{
    match v {
        Value::Str(s) => Option::Some(Authors::Single(s.clone())),
        Value::List(_) => match decode_strs(v) {
            Option::Some(names) => Option::Some(Authors::Multiple(names)),
            Option::None => Option::None,
        },
        Value::Null => Option::None,
    }
}

fn decode_opt(v: &Value) -> (r: Option<Option<String>>)
    ensures
        match r {
            Option::Some(o) => spec_decode_opt(v@) == Option::Some(opt_str_view(o)),
            Option::None => spec_decode_opt(v@) is None,
        },
{
    match v {
        Value::Null => Option::Some(Option::None),
        Value::Str(s) => Option::Some(Option::Some(s.clone())),
        Value::List(_) => Option::None,
    }
}

fn decode_license(v: &Value) -> (r: Option<License>)
    ensures
        match r {
            Option::Some(l) => spec_decode_license(v@) == Option::Some(l@),
            Option::None => spec_decode_license(v@) is None,
        },
{
    match v {
        Value::Null => Option::Some(License::Absent),
        Value::Str(_) => Option::None,
        Value::List(items) => {
            proof {
                lemma_values_view(items@);
            }
            if items.len() == 0 {
                Option::Some(License::Unrecognized)
            } else if items.len() == 3 {
                match (&items[0], &items[1], &items[2]) {
                    (Value::Str(name), Value::Str(id), Value::Str(category)) => Option::Some(
                        License::Valid {
                            name: name.clone(),
                            id: id.clone(),
                            category: category.clone(),
                        },
                    ),
                    _ => Option::None,
                }
            } else {
                Option::None
            }
        },
    }
}

/// Decodes a package report from the interchange format; nothing when
/// the node does not have the encoded shape.
pub fn decode(v: &Value) -> (r: Option<Package>)
    ensures
        match r {
            Option::Some(p) => spec_decode(v@) == Option::Some(p@),
            Option::None => spec_decode(v@) is None,
        },
{
    match v {
        Value::List(items) => {
            proof {
                lemma_values_view(items@);
            }
            if items.len() != 7 {
                return Option::None;
            }
            let package_name = match &items[0] {
                Value::Str(s) => s.clone(),
                _ => {
                    return Option::None;
                },
            };
            let authors = match decode_authors(&items[1]) {
                Option::Some(a) => a,
                Option::None => {
                    return Option::None;
                },
            };
            let home = match decode_opt(&items[2]) {
                Option::Some(o) => o,
                Option::None => {
                    return Option::None;
                },
            };
            let repo = match decode_opt(&items[3]) {
                Option::Some(o) => o,
                Option::None => {
                    return Option::None;
                },
            };
            let depends = match decode_strs(&items[4]) {
                Option::Some(d) => d,
                Option::None => {
                    return Option::None;
                },
            };
            let depended = match decode_strs(&items[5]) {
                Option::Some(d) => d,
                Option::None => {
                    return Option::None;
                },
            };
            let license = match decode_license(&items[6]) {
                Option::Some(l) => l,
                Option::None => {
                    return Option::None;
                },
            };
            let p = Package { package_name, authors, home, repo, depends, depended, license };
            proof {
                assert(spec_decode(v@) matches Option::Some(q) && q =~= p@);
            }
            Option::Some(p)
        },
        Value::Str(_) => Option::None,
        Value::Null => Option::None,
    }
}

} // verus!
