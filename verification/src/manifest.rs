//! The manifest value tree and the `lints.workspace` lookup.
//!
//! A manifest is structured configuration text parsed into a tree of tagged
//! values. The checker only ever reads the path `lints.workspace`, but the
//! tree carries the whole document so that a wrong value found at that path
//! can be reported exactly as it stands in the file.

use vstd::prelude::*;

verus! {

broadcast use vstd::std_specs::vec::group_vec_axioms, vstd::seq::group_seq_axioms;

/// One value of a parsed manifest.
///
/// Floating-point numerals and datetimes are carried as their text: the
/// checker never computes with them, it only compares values against the
/// boolean `true` and reports what it found.
#[derive(Debug, PartialEq)]
pub enum ManifestValue {
    Boolean(bool),
    Str(String),
    Integer(i64),
    Float(String),
    Mapping(Vec<ManifestEntry>),
    Sequence(Vec<ManifestValue>),
}

/// One key/value pair of a mapping.
#[derive(Debug, PartialEq)]
pub struct ManifestEntry {
    pub key: String,
    pub value: ManifestValue,
}

/// The mathematical model of a manifest value.
pub ghost enum ManifestView {
    Boolean(bool),
    Str(Seq<char>),
    Integer(int),
    Float(Seq<char>),
    Mapping(Seq<(Seq<char>, ManifestView)>),
    Sequence(Seq<ManifestView>),
}

impl View for ManifestValue {
    type V = ManifestView;

    open spec fn view(&self) -> ManifestView
        decreases self,
    {
        match self {
            ManifestValue::Boolean(b) => ManifestView::Boolean(*b),
            ManifestValue::Str(s) => ManifestView::Str(s@),
            ManifestValue::Integer(i) => ManifestView::Integer(*i as int),
            ManifestValue::Float(t) => ManifestView::Float(t@),
            ManifestValue::Mapping(es) => ManifestView::Mapping(entries_view(es@)),
            ManifestValue::Sequence(vs) => ManifestView::Sequence(values_view(vs@)),
        }
    }
}

/// The model of a mapping's entry list: the entries' key/value pairs in order.
pub open spec fn entries_view(es: Seq<ManifestEntry>) -> Seq<(Seq<char>, ManifestView)>
    decreases es,
{
    if es.len() == 0 {
        Seq::empty()
    } else {
        seq![(es[0].key@, es[0].value@)] + entries_view(es.drop_first())
    }
}

/// The model of a sequence value's element list.
pub open spec fn values_view(vs: Seq<ManifestValue>) -> Seq<ManifestView>
    decreases vs,
{
    if vs.len() == 0 {
        Seq::empty()
    } else {
        seq![vs[0]@] + values_view(vs.drop_first())
    }
}

/// `entries_view` maps the entry list pointwise.
pub proof fn lemma_entries_view(es: Seq<ManifestEntry>)
    ensures
        entries_view(es).len() == es.len(),
        forall|i: int|
            0 <= i < es.len() ==> #[trigger] entries_view(es)[i] == (es[i].key@, es[i].value@),
    decreases es.len(),
{
    if es.len() > 0 {
        lemma_entries_view(es.drop_first());
        assert(entries_view(es) == seq![(es[0].key@, es[0].value@)] + entries_view(
            es.drop_first(),
        ));
        assert(entries_view(es).len() == es.len());
        assert forall|i: int| 0 <= i < es.len() implies #[trigger] entries_view(es)[i] == (
            es[i].key@,
            es[i].value@,
        ) by {
            if i > 0 {
                assert(entries_view(es)[i] == entries_view(es.drop_first())[i - 1]);
                assert(es.drop_first()[i - 1] == es[i]);
            }
        }
    } else {
        assert(entries_view(es).len() == 0);
    }
}

/// `values_view` maps the element list pointwise.
pub proof fn lemma_values_view(vs: Seq<ManifestValue>)
    ensures
        values_view(vs).len() == vs.len(),
        forall|i: int| 0 <= i < vs.len() ==> #[trigger] values_view(vs)[i] == vs[i]@,
    decreases vs.len(),
{
    if vs.len() > 0 {
        lemma_values_view(vs.drop_first());
        assert(values_view(vs) == seq![vs[0]@] + values_view(vs.drop_first()));
        assert forall|i: int| 0 <= i < vs.len() implies #[trigger] values_view(vs)[i]
            == vs[i]@ by {
            if i > 0 {
                assert(values_view(vs)[i] == values_view(vs.drop_first())[i - 1]);
                assert(vs.drop_first()[i - 1] == vs[i]);
            }
        }
    } else {
        assert(values_view(vs).len() == 0);
    }
}

/// A manifest document: a mapping at top level.
#[derive(Debug, PartialEq)]
pub struct ManifestTable {
    pub entries: Vec<ManifestEntry>,
}

impl View for ManifestTable {
    type V = Seq<(Seq<char>, ManifestView)>;

    open spec fn view(&self) -> Seq<(Seq<char>, ManifestView)> {
        entries_view(self.entries@)
    }
}

/// A key looked up in an entry list names the first entry that carries it,
/// or nothing.
pub open spec fn spec_lookup(es: Seq<(Seq<char>, ManifestView)>, key: Seq<char>) -> Option<
    ManifestView,
>
    decreases es.len(),
{
    if es.len() == 0 {
        None
    } else if es[0].0 == key {
        Some(es[0].1)
    } else {
        spec_lookup(es.drop_first(), key)
    }
}

/// The value at the path `lints.workspace`: the `workspace` entry of the
/// `lints` mapping. Absent whenever `lints` is absent or is no mapping, or
/// `workspace` is absent from it.
pub open spec fn spec_lints_workspace(m: Seq<(Seq<char>, ManifestView)>) -> Option<ManifestView> {
    match spec_lookup(m, "lints"@) {
        Some(ManifestView::Mapping(inner)) => spec_lookup(inner, "workspace"@),
        _ => None,
    }
}

/// Finds `key` among `entries`, as `spec_lookup` says.
pub(crate) fn lookup<'a>(entries: &'a Vec<ManifestEntry>, key: &String) -> (r: Option<&'a ManifestValue>)
    ensures
        match r {
            Some(v) => spec_lookup(entries_view(entries@), key@) == Some(v@),
            None => spec_lookup(entries_view(entries@), key@) is None,
        },
{
    proof {
        lemma_entries_view(entries@);
    }
    let ghost pv = entries_view(entries@);
    proof {
        assert(pv.skip(0) =~= pv);
    }
    let mut i: usize = 0;
    while i < entries.len()
        invariant
            i <= entries@.len(),
            pv == entries_view(entries@),
            pv.len() == entries@.len(),
            forall|j: int| #![trigger pv[j]]
                0 <= j < entries@.len() ==> pv[j] == (entries@[j].key@, entries@[j].value@),
            spec_lookup(pv, key@) == spec_lookup(pv.skip(i as int), key@),
        decreases entries@.len() - i,
    {
        proof {
            assert(pv.skip(i as int)[0] == pv[i as int]);
        }
        if entries[i].key == *key {
            return Some(&entries[i].value);
        }
        proof {
            assert(pv.skip(i as int).drop_first() =~= pv.skip(i as int + 1));
        }
        i = i + 1;
    }
    proof {
        assert(pv.skip(entries@.len() as int) =~= Seq::<(Seq<char>, ManifestView)>::empty());
    }
    None
}

/// An owned copy of a value, equal to it under the model.
#[verifier::loop_isolation(false)]
pub fn clone_value(v: &ManifestValue) -> (r: ManifestValue)
    ensures
        r@ == v@,
    decreases v,
{
    match v {
        ManifestValue::Boolean(b) => ManifestValue::Boolean(*b),
        ManifestValue::Str(s) => ManifestValue::Str(s.clone()),
        ManifestValue::Integer(i) => ManifestValue::Integer(*i),
        ManifestValue::Float(t) => ManifestValue::Float(t.clone()),
        ManifestValue::Mapping(es) => {
            let mut out: Vec<ManifestEntry> = Vec::new();
            let mut i: usize = 0;
            while i < es.len()
                invariant
                    i <= es@.len(),
                    out@.len() == i as int,
                    forall|j: int| #![trigger out@[j]]
                        0 <= j < i ==> out@[j].key@ == es@[j].key@ && out@[j].value@
                            == es@[j].value@,
                decreases es@.len() - i,
            {
                let e = &es[i];
                proof {
                    assert(decreases_to!(*v => *es));
                    assert(decreases_to!(*es => es@[i as int]));
                }
                let c = ManifestEntry { key: e.key.clone(), value: clone_value(&e.value) };
                out.push(c);
                i = i + 1;
            }
            proof {
                lemma_entries_view(out@);
                lemma_entries_view(es@);
                assert(entries_view(out@) =~= entries_view(es@));
            }
            ManifestValue::Mapping(out)
        },
        ManifestValue::Sequence(vs) => {
            let mut out: Vec<ManifestValue> = Vec::new();
            let mut i: usize = 0;
            while i < vs.len()
                invariant
                    i <= vs@.len(),
                    out@.len() == i as int,
                    forall|j: int| #![trigger out@[j]] 0 <= j < i ==> out@[j]@ == vs@[j]@,
                decreases vs@.len() - i,
            {
                let e = &vs[i];
                proof {
                    assert(decreases_to!(*v => *vs));
                    assert(decreases_to!(*vs => vs@[i as int]));
                }
                let c = clone_value(e);
                out.push(c);
                i = i + 1;
            }
            proof {
                lemma_values_view(out@);
                lemma_values_view(vs@);
                assert(values_view(out@) =~= values_view(vs@));
            }
            ManifestValue::Sequence(out)
        },
    }
}

#[verifier::external_type_specification]
#[verifier::external_body]
pub struct ExTomlValue(toml::Value);

/// What `toml::from_str` makes of a piece of text: the model of the parsed
/// document, or the message reported for text that is not well-formed TOML.
pub uninterp spec fn toml_parse(text: Seq<char>) -> Result<ManifestView, Seq<char>>;

/// The model of a parsed TOML value.
pub uninterp spec fn toml_value_model(v: toml::Value) -> ManifestView;

/// Relies on `toml::from_str` for `toml::Table`: what it returns is a
/// function of the text alone, and a successful parse of a document is a
/// table.
#[verifier::external_body]
fn parse_toml(text: &str) -> (r: Result<toml::Value, String>)
    ensures
        match r {
            Ok(v) => toml_parse(text@) == Ok::<ManifestView, Seq<char>>(toml_value_model(v))
                && toml_value_model(v) is Mapping,
            Err(e) => toml_parse(text@) == Err::<ManifestView, Seq<char>>(e@),
        },
{
    match toml::from_str::<toml::Table>(text) {
        Ok(t) => Ok(toml::Value::Table(t)),
        Err(e) => Err(e.to_string()),
    }
}

/// Relies only on reading `toml::Value`'s variants: each one is carried over
/// one for one, floats and datetimes as their text.
#[verifier::external_body]
fn convert_value(v: &toml::Value) -> (r: ManifestValue)
    ensures
        r@ == toml_value_model(*v),
{
    match v {
        toml::Value::String(s) => ManifestValue::Str(s.clone()),
        toml::Value::Integer(i) => ManifestValue::Integer(*i),
        toml::Value::Float(f) => ManifestValue::Float(f.to_string()),
        toml::Value::Boolean(b) => ManifestValue::Boolean(*b),
        toml::Value::Datetime(d) => ManifestValue::Str(d.to_string()),
        toml::Value::Array(a) => ManifestValue::Sequence(a.iter().map(convert_value).collect()),
        toml::Value::Table(t) => ManifestValue::Mapping(
            t.iter().map(|(k, x)| ManifestEntry { key: k.clone(), value: convert_value(x) }).collect(),
        ),
    }
}

/// A value whose model is a mapping is the `Mapping` variant itself.
proof fn lemma_mapping_view(mv: ManifestValue)
    ensures
        mv@ is Mapping <==> mv is Mapping,
{
    match mv {
        ManifestValue::Boolean(_) => {},
        ManifestValue::Str(_) => {},
        ManifestValue::Integer(_) => {},
        ManifestValue::Float(_) => {},
        ManifestValue::Mapping(_) => {},
        ManifestValue::Sequence(_) => {},
    }
}

/// Parses manifest text into its value tree.
///
/// Both the tree and the message reported for ill-formed text are functions
/// of the text alone, as `toml_parse` names them.
pub fn parse_manifest(text: &str) -> (r: Result<ManifestTable, String>)
    ensures
        match r {
            Ok(t) => toml_parse(text@) == Ok::<ManifestView, Seq<char>>(
                ManifestView::Mapping(t@),
            ),
            Err(e) => toml_parse(text@) == Err::<ManifestView, Seq<char>>(e@),
        },
{
    match parse_toml(text) {
        Ok(v) => {
            let converted = convert_value(&v);
            proof {
                lemma_mapping_view(converted);
            }
            match converted {
                ManifestValue::Mapping(entries) => Ok(ManifestTable { entries }),
                _ => {
                    proof {
                        assert(false);
                    }
                    Err(String::new())
                },
            }
        },
        Err(e) => Err(e),
    }
}

} // verus!
