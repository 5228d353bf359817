//! Field descriptors, and initialization of a whole configuration.
//!
//! Every field is resolved, whatever happened to the fields before it; the
//! outcome is either every value or every error, in field order.
use vstd::prelude::*;
use crate::args::{arg_map_spec, ArgMap};
use crate::error::{ConfError, ConfErrorView, ConfErrors};
use crate::parse::{
    cli_raw, env_raw, fetch_spec, from_cli_arg, from_env_var, optional_from_cli_arg,
    optional_from_env_var, required_spec, EnvVars,
};
use crate::value::{decimal_of, lemma_u16_round_trip, ConfValue};

verus! {

/// Where a field's text comes from, and whether it must be there.
#[derive(Clone, Copy, Debug, PartialEq, Eq)]
pub enum SourceKind {
    EnvRequired,
    EnvOptional,
    CliRequired,
    CliOptional,
    /// Not read at all: the field takes its type's default.
    Ignored,
}

/// The type a field's text is parsed into.
#[derive(Clone, Copy, Debug, PartialEq, Eq)]
pub enum ValueType {
    Text,
    U16,
}

/// One configuration field: its name, its source and key, and its type.
#[derive(Clone, Debug, PartialEq, Eq)]
pub struct FieldDescriptor {
    pub field_name: String,
    pub source: SourceKind,
    pub key: String,
    pub value_type: ValueType,
}

/// A resolved field value.
#[derive(Clone, Debug, PartialEq, Eq)]
pub enum FieldValue {
    Text(String),
    U16(u16),
}

/// The mathematical model of a `FieldValue`.
pub ghost enum FieldValueView {
    Text(Seq<char>),
    U16(u16),
}

impl View for FieldValue {
    type V = FieldValueView;

    open spec fn view(&self) -> FieldValueView {
        match self {
            FieldValue::Text(s) => FieldValueView::Text(s@),
            FieldValue::U16(n) => FieldValueView::U16(*n),
        }
    }
}

/// The model of one slot of a configuration record.
pub open spec fn slot_view(o: Option<FieldValue>) -> Option<FieldValueView> {
    match o {
        Some(v) => Some(v@),
        None => None,
    }
}

/// The model of a resolved field.
pub open spec fn field_result_view(r: Result<Option<FieldValue>, ConfError>) -> Result<
    Option<FieldValueView>,
    ConfErrorView,
> {
    match r {
        Ok(o) => Ok(slot_view(o)),
        Err(e) => Err(e@),
    }
}

/// The text a field's source holds for its key, if any.
pub open spec fn source_text(
    d: FieldDescriptor,
    env: Map<Seq<char>, Seq<char>>,
    args: Map<Seq<char>, Option<Seq<char>>>,
) -> Option<Seq<char>> {
    match d.source {
        SourceKind::EnvRequired | SourceKind::EnvOptional => env_raw(env, d.key@),
        SourceKind::CliRequired | SourceKind::CliOptional => cli_raw(args, d.key@),
        SourceKind::Ignored => None,
    }
}

/// Whether text is a valid value of a type.
pub open spec fn parses(t: ValueType, s: Seq<char>) -> bool {
    match t {
        ValueType::Text => <String as ConfValue>::parse_spec(s) is Ok,
        ValueType::U16 => <u16 as ConfValue>::parse_spec(s) is Ok,
    }
}

/// A required field's outcome for the text found.
pub open spec fn required_value(t: ValueType, raw: Option<Seq<char>>, key: Seq<char>) -> Result<
    Option<FieldValueView>,
    ConfErrorView,
> {
    match t {
        ValueType::Text => match required_spec::<String>(raw, key) {
            Ok(v) => Ok(Some(FieldValueView::Text(v))),
            Err(e) => Err(e),
        },
        ValueType::U16 => match required_spec::<u16>(raw, key) {
            Ok(v) => Ok(Some(FieldValueView::U16(v))),
            Err(e) => Err(e),
        },
    }
}

/// An optional field's outcome for the text found.
pub open spec fn optional_value(t: ValueType, raw: Option<Seq<char>>, key: Seq<char>) -> Result<
    Option<FieldValueView>,
    ConfErrorView,
> {
    match t {
        ValueType::Text => match fetch_spec::<String>(raw, key) {
            Ok(Some(v)) => Ok(Some(FieldValueView::Text(v))),
            Ok(None) => Ok(None),
            Err(e) => Err(e),
        },
        ValueType::U16 => match fetch_spec::<u16>(raw, key) {
            Ok(Some(v)) => Ok(Some(FieldValueView::U16(v))),
            Ok(None) => Ok(None),
            Err(e) => Err(e),
        },
    }
}

/// The default value of a type, which an ignored field takes.
pub open spec fn default_of(t: ValueType) -> FieldValueView {
    match t {
        ValueType::Text => FieldValueView::Text(<String as ConfValue>::default_spec()),
        ValueType::U16 => FieldValueView::U16(<u16 as ConfValue>::default_spec()),
    }
}

/// The outcome of resolving one field.
pub open spec fn resolve_spec(
    d: FieldDescriptor,
    env: Map<Seq<char>, Seq<char>>,
    args: Map<Seq<char>, Option<Seq<char>>>,
) -> Result<Option<FieldValueView>, ConfErrorView> {
    let raw = source_text(d, env, args);
    match d.source {
        SourceKind::EnvRequired | SourceKind::CliRequired => required_value(
            d.value_type,
            raw,
            d.key@,
        ),
        SourceKind::EnvOptional | SourceKind::CliOptional => optional_value(
            d.value_type,
            raw,
            d.key@,
        ),
        SourceKind::Ignored => Ok(Some(default_of(d.value_type))),
    }
}

/// The errors one field adds: its error, or nothing.
pub open spec fn contribution(
    d: FieldDescriptor,
    env: Map<Seq<char>, Seq<char>>,
    args: Map<Seq<char>, Option<Seq<char>>>,
) -> Seq<ConfErrorView> {
    match resolve_spec(d, env, args) {
        Ok(_) => Seq::empty(),
        Err(e) => seq![e],
    }
}

/// Every field's error, in field order.
pub open spec fn errors_of(
    ds: Seq<FieldDescriptor>,
    env: Map<Seq<char>, Seq<char>>,
    args: Map<Seq<char>, Option<Seq<char>>>,
) -> Seq<ConfErrorView>
    decreases ds.len(),
{
    if ds.len() == 0 {
        Seq::empty()
    } else {
        errors_of(ds.drop_last(), env, args) + contribution(ds.last(), env, args)
    }
}

/// Every field's value, in field order (meaningful when no field failed).
pub open spec fn values_of(
    ds: Seq<FieldDescriptor>,
    env: Map<Seq<char>, Seq<char>>,
    args: Map<Seq<char>, Option<Seq<char>>>,
) -> Seq<Option<FieldValueView>> {
    ds.map_values(|d: FieldDescriptor| resolve_spec(d, env, args)->Ok_0)
}

/// The outcome of initialization: the values when no field failed, else the
/// errors of all the fields that did.
pub open spec fn init_spec(
    ds: Seq<FieldDescriptor>,
    env: Map<Seq<char>, Seq<char>>,
    args: Map<Seq<char>, Option<Seq<char>>>,
) -> Result<Seq<Option<FieldValueView>>, Seq<ConfErrorView>> {
    let errs = errors_of(ds, env, args);
    if errs.len() == 0 {
        Ok(values_of(ds, env, args))
    } else {
        Err(errs)
    }
}

/// The model of an initialization outcome.
pub open spec fn record_view(r: Result<Vec<Option<FieldValue>>, ConfErrors>) -> Result<
    Seq<Option<FieldValueView>>,
    Seq<ConfErrorView>,
> {
    match r {
        Ok(v) => Ok(v@.map_values(|o: Option<FieldValue>| slot_view(o))),
        Err(es) => Err(es@),
    }
}

fn lift_required_text(r: Result<String, ConfError>) -> (out: Result<Option<FieldValue>, ConfError>)
    ensures
        field_result_view(out) == match r {
            Ok(v) => Ok(Some(FieldValueView::Text(v@))),
            Err(e) => Err::<Option<FieldValueView>, ConfErrorView>(e@),
        },
{
    match r {
        Ok(v) => Ok(Some(FieldValue::Text(v))),
        Err(e) => Err(e),
    }
}

fn lift_required_u16(r: Result<u16, ConfError>) -> (out: Result<Option<FieldValue>, ConfError>)
    ensures
        field_result_view(out) == match r {
            Ok(v) => Ok(Some(FieldValueView::U16(v))),
            Err(e) => Err::<Option<FieldValueView>, ConfErrorView>(e@),
        },
{
    match r {
        Ok(v) => Ok(Some(FieldValue::U16(v))),
        Err(e) => Err(e),
    }
}

fn lift_optional_text(r: Result<Option<String>, ConfError>) -> (out: Result<
    Option<FieldValue>,
    ConfError,
>)
    ensures
        field_result_view(out) == match r {
            Ok(Some(v)) => Ok(Some(FieldValueView::Text(v@))),
            Ok(None) => Ok(None),
            Err(e) => Err::<Option<FieldValueView>, ConfErrorView>(e@),
        },
{
    match r {
        Ok(Some(v)) => Ok(Some(FieldValue::Text(v))),
        Ok(None) => Ok(None),
        Err(e) => Err(e),
    }
}

fn lift_optional_u16(r: Result<Option<u16>, ConfError>) -> (out: Result<
    Option<FieldValue>,
    ConfError,
>)
    ensures
        field_result_view(out) == match r {
            Ok(Some(v)) => Ok(Some(FieldValueView::U16(v))),
            Ok(None) => Ok(None),
            Err(e) => Err::<Option<FieldValueView>, ConfErrorView>(e@),
        },
{
    match r {
        Ok(Some(v)) => Ok(Some(FieldValue::U16(v))),
        Ok(None) => Ok(None),
        Err(e) => Err(e),
    }
}

/// Resolves one field from its source.
pub fn resolve_field(d: &FieldDescriptor, env: &EnvVars, arg_map: &ArgMap) -> (r: Result<
    Option<FieldValue>,
    ConfError,
>)
    ensures
        field_result_view(r) == resolve_spec(*d, env@, arg_map@),
{
    let key = d.key.as_str();
    match (d.source, d.value_type) {
        (SourceKind::EnvRequired, ValueType::Text) => lift_required_text(from_env_var(env, key)),
        (SourceKind::EnvRequired, ValueType::U16) => lift_required_u16(from_env_var(env, key)),
        (SourceKind::EnvOptional, ValueType::Text) => lift_optional_text(
            optional_from_env_var(env, key),
        ),
        (SourceKind::EnvOptional, ValueType::U16) => lift_optional_u16(
            optional_from_env_var(env, key),
        ),
        (SourceKind::CliRequired, ValueType::Text) => lift_required_text(from_cli_arg(arg_map, key)),
        (SourceKind::CliRequired, ValueType::U16) => lift_required_u16(
            from_cli_arg(arg_map, key),
        ),
        (SourceKind::CliOptional, ValueType::Text) => lift_optional_text(
            optional_from_cli_arg(arg_map, key),
        ),
        (SourceKind::CliOptional, ValueType::U16) => lift_optional_u16(
            optional_from_cli_arg(arg_map, key),
        ),
        (SourceKind::Ignored, ValueType::Text) => Ok(
            Some(FieldValue::Text(<String as ConfValue>::default_value())),
        ),
        (SourceKind::Ignored, ValueType::U16) => Ok(
            Some(FieldValue::U16(<u16 as ConfValue>::default_value())),
        ),
    }
}

/// Resolves every field, in order, and returns either all the values or all
/// the errors. No field is skipped because an earlier one failed.
pub fn init(fields: &Vec<FieldDescriptor>, env: &EnvVars, arg_map: &ArgMap) -> (r: Result<
    Vec<Option<FieldValue>>,
    ConfErrors,
>)
    ensures
        record_view(r) == init_spec(fields@, env@, arg_map@),
{
    let ghost ds = fields@;
    let mut values: Vec<Option<FieldValue>> = Vec::new();
    let mut errs: Vec<ConfError> = Vec::new();
    let mut i: usize = 0;
    while i < fields.len()
        invariant
            i <= ds.len(),
            ds == fields@,
            errs@.map_values(|e: ConfError| e@) == errors_of(ds.take(i as int), env@, arg_map@),
            errs@.len() == 0 ==> values@.map_values(|o: Option<FieldValue>| slot_view(o))
                == values_of(ds.take(i as int), env@, arg_map@),
        decreases ds.len() - i,
    {
        let res = resolve_field(&fields[i], env, arg_map);
        let ghost prev_errs = errs@;
        let ghost prev_values = values@;
        proof {
            assert(ds.take(i as int + 1).drop_last() =~= ds.take(i as int));
            assert(ds.take(i as int + 1).last() == ds[i as int]);
        }
        match res {
            Ok(v) => {
                values.push(v);
                proof {
                    assert(errs@ == prev_errs);
                    assert(errors_of(ds.take(i as int + 1), env@, arg_map@) =~= errors_of(
                        ds.take(i as int),
                        env@,
                        arg_map@,
                    ));
                    if errs@.len() == 0 {
                        assert(values@ == prev_values.push(v));
                        let f = |o: Option<FieldValue>| slot_view(o);
                        let target = values_of(ds.take(i as int + 1), env@, arg_map@);
                        let before = values_of(ds.take(i as int), env@, arg_map@);
                        assert(prev_values.map_values(f) == before);
                        assert(field_result_view(res) == resolve_spec(ds[i as int], env@, arg_map@));
                        assert forall|k: int| 0 <= k < i + 1 implies #[trigger] values@.map_values(
                            f,
                        )[k] == target[k] by {
                            if k < i {
                                assert(prev_values.map_values(f)[k] == before[k]);
                            }
                        }
                        assert(values@.map_values(|o: Option<FieldValue>| slot_view(o))
                            =~= values_of(ds.take(i as int + 1), env@, arg_map@));
                    }
                }
            },
            Err(e) => {
                errs.push(e);
                proof {
                    assert(errs@.map_values(|e: ConfError| e@) =~= errors_of(
                        ds.take(i as int + 1),
                        env@,
                        arg_map@,
                    ));
                }
            },
        }
        i = i + 1;
    }
    proof {
        assert(ds.take(i as int) =~= ds);
    }
    if errs.len() > 0 {
        Err(ConfErrors(errs))
    } else {
        Ok(values)
    }
}

proof fn lemma_errors_concat(
    a: Seq<FieldDescriptor>,
    b: Seq<FieldDescriptor>,
    env: Map<Seq<char>, Seq<char>>,
    args: Map<Seq<char>, Option<Seq<char>>>,
)
    ensures
        errors_of(a + b, env, args) == errors_of(a, env, args) + errors_of(b, env, args),
    decreases b.len(),
{
    if b.len() == 0 {
        assert(a + b =~= a);
        assert(errors_of(a, env, args) + errors_of(b, env, args) =~= errors_of(a, env, args));
    } else {
        lemma_errors_concat(a, b.drop_last(), env, args);
        assert((a + b).drop_last() =~= a + b.drop_last());
        assert((a + b).last() == b.last());
        assert(errors_of(a + b, env, args) =~= errors_of(a, env, args) + errors_of(b, env, args));
    }
}

/// The errors of all the fields split around field `j`: those before it,
/// its own, and those after it.
proof fn lemma_errors_split(
    ds: Seq<FieldDescriptor>,
    env: Map<Seq<char>, Seq<char>>,
    args: Map<Seq<char>, Option<Seq<char>>>,
    j: int,
)
    requires
        0 <= j < ds.len(),
    ensures
        errors_of(ds, env, args) == errors_of(ds.take(j), env, args) + contribution(
            ds[j],
            env,
            args,
        ) + errors_of(ds.skip(j + 1), env, args),
{
    let one = seq![ds[j]];
    assert(ds =~= ds.take(j) + one + ds.skip(j + 1));
    assert(one.drop_last() =~= Seq::<FieldDescriptor>::empty());
    assert(errors_of(one.drop_last(), env, args) == Seq::<ConfErrorView>::empty());
    assert(one.last() == ds[j]);
    assert(errors_of(one, env, args) =~= contribution(ds[j], env, args));
    lemma_errors_concat(ds.take(j) + one, ds.skip(j + 1), env, args);
    lemma_errors_concat(ds.take(j), one, env, args);
}

/// A required field whose source holds no text adds exactly one error, a
/// `MissingField` naming its key, and initialization fails with that error
/// among the others.
pub proof fn lemma_required_absent_fails(
    ds: Seq<FieldDescriptor>,
    env: Map<Seq<char>, Seq<char>>,
    args: Map<Seq<char>, Option<Seq<char>>>,
    j: int,
)
    requires
        0 <= j < ds.len(),
        ds[j].source == SourceKind::EnvRequired || ds[j].source == SourceKind::CliRequired,
        source_text(ds[j], env, args) is None,
    ensures
        contribution(ds[j], env, args) == seq![
            ConfErrorView::MissingField { field_name: ds[j].key@ },
        ],
        init_spec(ds, env, args) is Err,
        errors_of(ds, env, args)[errors_of(ds.take(j), env, args).len() as int]
            == (ConfErrorView::MissingField { field_name: ds[j].key@ }),
{
    lemma_errors_split(ds, env, args, j);
    assert(contribution(ds[j], env, args) =~= seq![
        ConfErrorView::MissingField { field_name: ds[j].key@ },
    ]);
}

/// An optional field whose source holds no text resolves to `None` and adds
/// no error.
pub proof fn lemma_optional_absent(
    d: FieldDescriptor,
    env: Map<Seq<char>, Seq<char>>,
    args: Map<Seq<char>, Option<Seq<char>>>,
)
    requires
        d.source == SourceKind::EnvOptional || d.source == SourceKind::CliOptional,
        source_text(d, env, args) is None,
    ensures
        resolve_spec(d, env, args) == Ok::<Option<FieldValueView>, ConfErrorView>(None),
        contribution(d, env, args).len() == 0,
{
}

/// An optional field whose source holds text that does not parse still adds
/// exactly one error, a `ParseError` naming its key.
pub proof fn lemma_optional_malformed(
    d: FieldDescriptor,
    env: Map<Seq<char>, Seq<char>>,
    args: Map<Seq<char>, Option<Seq<char>>>,
    s: Seq<char>,
)
    requires
        d.source == SourceKind::EnvOptional || d.source == SourceKind::CliOptional,
        source_text(d, env, args) == Some(s),
        !parses(d.value_type, s),
    ensures
        contribution(d, env, args).len() == 1,
        contribution(d, env, args)[0] matches ConfErrorView::ParseError { field_name, .. }
            && field_name == d.key@,
{
}

/// One call reports every broken field: for two failing fields `i < j`, both
/// errors are in the result, the error of `i` before the error of `j`.
pub proof fn lemma_all_errors_reported(
    ds: Seq<FieldDescriptor>,
    env: Map<Seq<char>, Seq<char>>,
    args: Map<Seq<char>, Option<Seq<char>>>,
    i: int,
    j: int,
)
    requires
        0 <= i < j < ds.len(),
        resolve_spec(ds[i], env, args) is Err,
        resolve_spec(ds[j], env, args) is Err,
    ensures
        init_spec(ds, env, args) is Err,
        ({
            let errs = errors_of(ds, env, args);
            let p = errors_of(ds.take(i), env, args).len() as int;
            let q = errors_of(ds.take(j), env, args).len() as int;
            &&& p < q < errs.len()
            &&& errs[p] == resolve_spec(ds[i], env, args)->Err_0
            &&& errs[q] == resolve_spec(ds[j], env, args)->Err_0
        }),
{
    lemma_errors_split(ds, env, args, j);
    let front = ds.take(j);
    lemma_errors_split(front, env, args, i);
    assert(front.take(i) =~= ds.take(i));
    assert(front[i] == ds[i]);
}

/// Initialization keeps no state between calls: two calls on the same fields,
/// the same environment and argument maps built from the same tokens have
/// the same outcome.
pub proof fn lemma_init_repeatable(
    ds: Seq<FieldDescriptor>,
    env: Map<Seq<char>, Seq<char>>,
    tokens: Seq<Seq<char>>,
    args1: Map<Seq<char>, Option<Seq<char>>>,
    args2: Map<Seq<char>, Option<Seq<char>>>,
    r1: Result<Vec<Option<FieldValue>>, ConfErrors>,
    r2: Result<Vec<Option<FieldValue>>, ConfErrors>,
)
    requires
        args1 == arg_map_spec(tokens),
        args2 == arg_map_spec(tokens),
        record_view(r1) == init_spec(ds, env, args1),
        record_view(r2) == init_spec(ds, env, args2),
    ensures
        record_view(r1) == record_view(r2),
{
}

/// Round trip for numbers: a read field of type `U16` whose source holds the
/// decimal text of `v` resolves to exactly `v`.
pub proof fn lemma_number_round_trip(
    d: FieldDescriptor,
    env: Map<Seq<char>, Seq<char>>,
    args: Map<Seq<char>, Option<Seq<char>>>,
    v: u16,
)
    requires
        d.source != SourceKind::Ignored,
        d.value_type == ValueType::U16,
        source_text(d, env, args) == Some(decimal_of(v as nat)),
    ensures
        resolve_spec(d, env, args) == Ok::<Option<FieldValueView>, ConfErrorView>(
            Some(FieldValueView::U16(v)),
        ),
{
    lemma_u16_round_trip(v);
}

/// Round trip for text: a read field of type `Text` whose source holds `s`
/// resolves to exactly `s`.
pub proof fn lemma_text_round_trip(
    d: FieldDescriptor,
    env: Map<Seq<char>, Seq<char>>,
    args: Map<Seq<char>, Option<Seq<char>>>,
    s: Seq<char>,
)
    requires
        d.source != SourceKind::Ignored,
        d.value_type == ValueType::Text,
        source_text(d, env, args) == Some(s),
    ensures
        resolve_spec(d, env, args) == Ok::<Option<FieldValueView>, ConfErrorView>(
            Some(FieldValueView::Text(s)),
        ),
{
}

} // verus!
