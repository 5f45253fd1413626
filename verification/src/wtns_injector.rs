//! Injection of a value into a witness at a path of variant names and indices.
use vstd::prelude::*;

use crate::hl_type::{
    lemma_types_view, lemma_variants_view, type_text, type_view, types_duplicate, types_view,
    variant_view, variants_view, EnumModel, HlType, TypeModel,
};
use crate::hl_value::{
    array_model, find_variant, find_variant_index, inner_view, lemma_all_wf, lemma_find_variant_from,
    lemma_values_view, left_model, right_model, tuple_model, types_of, value_view, values_duplicate,
    values_view, wf_value, HlValue, InnerModel, ValueInner, ValueModel,
};
use crate::text::{parse_usize, parse_usize_spec, str_eq};
use crate::wtns_error::{WrapErrorModel, WtnsWrappingError};

verus! {

/// A single step in a witness path: a name (`Left`, `Right`, or an enum
/// variant name, read against the type at that point) or an index.
#[derive(Debug, PartialEq, Eq)]
pub enum WtnsPathRoute {
    Name(String),
    Index(usize),
}

/// Mathematical model of a path step.
pub enum RouteModel {
    Name(Seq<char>),
    Index(nat),
}

impl View for WtnsPathRoute {
    type V = RouteModel;

    open spec fn view(&self) -> RouteModel {
        match self {
            WtnsPathRoute::Name(n) => RouteModel::Name(n@),
            WtnsPathRoute::Index(i) => RouteModel::Index(*i as nat),
        }
    }
}

/// A path step is an index when it reads as a `usize`, a name otherwise.
pub open spec fn parse_route(s: Seq<char>) -> RouteModel {
    match parse_usize_spec(s) {
        Some(n) => RouteModel::Index(n as nat),
        None => RouteModel::Name(s),
    }
}

/// The steps of a textual path.
pub open spec fn path_routes(path: Seq<&str>) -> Seq<RouteModel> {
    Seq::new(path.len(), |i: int| parse_route(path[i]@))
}

/// The models of parsed steps.
pub open spec fn routes_view(rs: Seq<WtnsPathRoute>) -> Seq<RouteModel> {
    Seq::new(rs.len(), |i: int| rs[i]@)
}

/// Whether the step `r` can be taken from a value of type `t`: indices into
/// arrays and tuples, variant names into enums, `Left` and `Right` into `Either`.
pub open spec fn route_supported(r: RouteModel, t: TypeModel) -> bool {
    match r {
        RouteModel::Index(_) => t is Array || t is Tuple,
        RouteModel::Name(n) => t is Enum || (t is Either && (n == "Left"@ || n == "Right"@)),
    }
}

/// The components of a tuple value.
pub open spec fn tuple_elems(v: ValueModel) -> Seq<ValueModel> {
    match v.inner {
        InnerModel::Tuple(es) => es,
        _ => Seq::empty(),
    }
}

/// The value of the variant at position `i` of the enum type `t` with `payload`.
pub open spec fn enum_model(t: TypeModel, i: nat, payload: Seq<ValueModel>) -> ValueModel {
    ValueModel { inner: InnerModel::Enum(i, payload), ty: t }
}

/// The payload types of variant `i` seen as one value type: the payload
/// itself for one payload, a tuple of the payloads otherwise.
pub open spec fn variant_payload(info: EnumModel, i: nat) -> Seq<TypeModel> {
    info.variants[i as int].payload
}

/// `w` (of type `t`) with `v` put at `path`: each step descends into the
/// branch, element or variant payload it names, checking it against the
/// type and the witness; at the end of the path `v` must have the type
/// reached, and the witness is rebuilt around it.
pub open spec fn inject_spec(w: ValueModel, t: TypeModel, path: Seq<RouteModel>, v: ValueModel) -> Result<
    ValueModel,
    WrapErrorModel,
>
    decreases path.len(),
{
    if path.len() == 0 {
        if v.ty == t {
            Ok(v)
        } else {
            Err(WrapErrorModel::RootTypeMismatch(type_text(t), type_text(v.ty)))
        }
    } else {
        let route = path[0];
        let rest = path.drop_first();
        if !route_supported(route, t) {
            Err(WrapErrorModel::UnsupportedPathType(type_text(t)))
        } else {
            match t {
                TypeModel::Either(lt, rt) => {
                    let go_left = route->Name_0 == "Left"@;
                    match w.inner {
                        InnerModel::Left(x) => if go_left {
                            match inject_spec(*x, *lt, rest, v) {
                                Ok(y) => Ok(left_model(y, *rt)),
                                Err(e) => Err(e),
                            }
                        } else {
                            Err(WrapErrorModel::EitherBranchMismatch)
                        },
                        InnerModel::Right(x) => if !go_left {
                            match inject_spec(*x, *rt, rest, v) {
                                Ok(y) => Ok(right_model(*lt, y)),
                                Err(e) => Err(e),
                            }
                        } else {
                            Err(WrapErrorModel::EitherBranchMismatch)
                        },
                        _ => Err(WrapErrorModel::EitherBranchMismatch),
                    }
                },
                TypeModel::Array(et, len) => {
                    let idx = route->Index_0;
                    if idx >= len {
                        Err(WrapErrorModel::IdxOutOfBounds(len, idx))
                    } else {
                        match w.inner {
                            InnerModel::Array(es) => match inject_spec(es[idx as int], *et, rest, v) {
                                Ok(y) => Ok(array_model(es.update(idx as int, y), *et)),
                                Err(e) => Err(e),
                            },
                            _ => Err(WrapErrorModel::UnsupportedPathType(type_text(t))),
                        }
                    }
                },
                TypeModel::Tuple(ts) => {
                    let idx = route->Index_0;
                    if idx >= ts.len() {
                        Err(WrapErrorModel::IdxOutOfBounds(ts.len(), idx))
                    } else {
                        match w.inner {
                            InnerModel::Tuple(es) => match inject_spec(
                                es[idx as int],
                                ts[idx as int],
                                rest,
                                v,
                            ) {
                                Ok(y) => Ok(tuple_model(es.update(idx as int, y))),
                                Err(e) => Err(e),
                            },
                            _ => Err(WrapErrorModel::UnsupportedPathType(type_text(t))),
                        }
                    }
                },
                TypeModel::Enum(info) => {
                    let name = route->Name_0;
                    match find_variant(info.variants, name) {
                        None => Err(WrapErrorModel::UnknownEnumVariant(name, type_text(t))),
                        Some(vi) => match w.inner {
                            InnerModel::Enum(wi, payload) => if wi != vi {
                                Err(
                                    WrapErrorModel::EnumVariantMismatch(
                                        name,
                                        info.variants[wi as int].name,
                                    ),
                                )
                            } else {
                                let ps = variant_payload(info, vi);
                                if ps.len() == 0 {
                                    Err(WrapErrorModel::UnsupportedPathType(type_text(t)))
                                } else if ps.len() == 1 {
                                    match inject_spec(payload[0], ps[0], rest, v) {
                                        Ok(y) => Ok(enum_model(t, vi, seq![y])),
                                        Err(e) => Err(e),
                                    }
                                } else {
                                    match inject_spec(tuple_model(payload), TypeModel::Tuple(ps), rest, v) {
                                        Ok(y) => Ok(enum_model(t, vi, tuple_elems(y))),
                                        Err(e) => Err(e),
                                    }
                                }
                            },
                            _ => Err(WrapErrorModel::UnsupportedPathType(type_text(t))),
                        },
                    }
                },
                _ => Err(WrapErrorModel::UnsupportedPathType(type_text(t))),
            }
        }
    }
}

/// The model of a result of injection.
pub open spec fn inject_result_view(r: Result<HlValue, WtnsWrappingError>) -> Result<
    ValueModel,
    WrapErrorModel,
> {
    match r {
        Ok(v) => Ok(v@),
        Err(e) => Err(e@),
    }
}

/// A successful injection gives a well-formed value of the witness's type.
pub proof fn lemma_inject_typed(w: ValueModel, t: TypeModel, path: Seq<RouteModel>, v: ValueModel)
    requires
        wf_value(w),
        w.ty == t,
        wf_value(v),
    ensures
        inject_spec(w, t, path, v) matches Ok(y) ==> wf_value(y) && y.ty == t,
    decreases path.len(),
{
    if path.len() > 0 && route_supported(path[0], t) {
        let rest = path.drop_first();
        match t {
            TypeModel::Either(lt, rt) => match w.inner {
                InnerModel::Left(x) => lemma_inject_typed(*x, *lt, rest, v),
                InnerModel::Right(x) => lemma_inject_typed(*x, *rt, rest, v),
                _ => {},
            },
            TypeModel::Array(et, len) => {
                let idx = path[0]->Index_0;
                if let InnerModel::Array(es) = w.inner {
                    if idx < len {
                        lemma_all_wf(es);
                        lemma_inject_typed(es[idx as int], *et, rest, v);
                        if let Ok(y) = inject_spec(es[idx as int], *et, rest, v) {
                            let nes = es.update(idx as int, y);
                            lemma_all_wf(nes);
                            assert(forall|i: int| 0 <= i < nes.len() ==> #[trigger] nes[i].ty == *et);
                        }
                    }
                }
            },
            TypeModel::Tuple(ts) => {
                let idx = path[0]->Index_0;
                if let InnerModel::Tuple(es) = w.inner {
                    if idx < ts.len() {
                        lemma_all_wf(es);
                        assert(ts == types_of(es));
                        lemma_inject_typed(es[idx as int], ts[idx as int], rest, v);
                        if let Ok(y) = inject_spec(es[idx as int], ts[idx as int], rest, v) {
                            let nes = es.update(idx as int, y);
                            lemma_all_wf(nes);
                            assert(types_of(nes) =~= ts);
                        }
                    }
                }
            },
            TypeModel::Enum(info) => {
                let name = path[0]->Name_0;
                if let Some(vi) = find_variant(info.variants, name) {
                    lemma_find_variant_from(info.variants, name, 0);
                    if let InnerModel::Enum(wi, payload) = w.inner {
                        if wi == vi {
                            let ps = variant_payload(info, vi);
                            lemma_all_wf(payload);
                            assert(types_of(payload) == ps);
                            if ps.len() == 1 {
                                assert(payload[0].ty == ps[0]);
                                lemma_inject_typed(payload[0], ps[0], rest, v);
                                if let Ok(y) = inject_spec(payload[0], ps[0], rest, v) {
                                    lemma_all_wf(seq![y]);
                                    assert(types_of(seq![y]) =~= ps);
                                }
                            } else if ps.len() > 1 {
                                let tv = tuple_model(payload);
                                lemma_inject_typed(tv, TypeModel::Tuple(ps), rest, v);
                                if let Ok(y) = inject_spec(tv, TypeModel::Tuple(ps), rest, v) {
                                    assert(y.inner is Tuple);
                                }
                            }
                        }
                    }
                }
            },
            _ => {},
        }
    }
}

/// The value that `w` (of type `t`) holds at `path`, when every step of the
/// path can be taken from the type and the witness.
pub open spec fn lookup_spec(w: ValueModel, t: TypeModel, path: Seq<RouteModel>) -> Option<ValueModel>
    decreases path.len(),
{
    if path.len() == 0 {
        Some(w)
    } else {
        let route = path[0];
        let rest = path.drop_first();
        if !route_supported(route, t) {
            None
        } else {
            match t {
                TypeModel::Either(lt, rt) => {
                    let go_left = route->Name_0 == "Left"@;
                    match w.inner {
                        InnerModel::Left(x) => if go_left {
                            lookup_spec(*x, *lt, rest)
                        } else {
                            None
                        },
                        InnerModel::Right(x) => if !go_left {
                            lookup_spec(*x, *rt, rest)
                        } else {
                            None
                        },
                        _ => None,
                    }
                },
                TypeModel::Array(et, len) => {
                    let idx = route->Index_0;
                    if idx >= len {
                        None
                    } else {
                        match w.inner {
                            InnerModel::Array(es) => lookup_spec(es[idx as int], *et, rest),
                            _ => None,
                        }
                    }
                },
                TypeModel::Tuple(ts) => {
                    let idx = route->Index_0;
                    if idx >= ts.len() {
                        None
                    } else {
                        match w.inner {
                            InnerModel::Tuple(es) => lookup_spec(es[idx as int], ts[idx as int], rest),
                            _ => None,
                        }
                    }
                },
                TypeModel::Enum(info) => match find_variant(info.variants, route->Name_0) {
                    None => None,
                    Some(vi) => match w.inner {
                        InnerModel::Enum(wi, payload) => if wi != vi {
                            None
                        } else {
                            let ps = variant_payload(info, vi);
                            if ps.len() == 0 {
                                None
                            } else if ps.len() == 1 {
                                lookup_spec(payload[0], ps[0], rest)
                            } else {
                                lookup_spec(tuple_model(payload), TypeModel::Tuple(ps), rest)
                            }
                        },
                        _ => None,
                    },
                },
                _ => None,
            }
        }
    }
}

/// What a witness holds at a path is well formed.
pub proof fn lemma_lookup_wf(w: ValueModel, t: TypeModel, path: Seq<RouteModel>)
    requires
        wf_value(w),
        w.ty == t,
    ensures
        lookup_spec(w, t, path) matches Some(x) ==> wf_value(x),
    decreases path.len(),
{
    if path.len() > 0 && route_supported(path[0], t) {
        let rest = path.drop_first();
        match t {
            TypeModel::Either(lt, rt) => match w.inner {
                InnerModel::Left(x) => lemma_lookup_wf(*x, *lt, rest),
                InnerModel::Right(x) => lemma_lookup_wf(*x, *rt, rest),
                _ => {},
            },
            TypeModel::Array(et, len) => {
                let idx = path[0]->Index_0;
                if let InnerModel::Array(es) = w.inner {
                    if idx < len {
                        lemma_all_wf(es);
                        lemma_lookup_wf(es[idx as int], *et, rest);
                    }
                }
            },
            TypeModel::Tuple(ts) => {
                let idx = path[0]->Index_0;
                if let InnerModel::Tuple(es) = w.inner {
                    if idx < ts.len() {
                        lemma_all_wf(es);
                        assert(ts[idx as int] == types_of(es)[idx as int]);
                        lemma_lookup_wf(es[idx as int], ts[idx as int], rest);
                    }
                }
            },
            TypeModel::Enum(info) => {
                let name = path[0]->Name_0;
                if let Some(vi) = find_variant(info.variants, name) {
                    if let InnerModel::Enum(wi, payload) = w.inner {
                        if wi == vi {
                            let ps = variant_payload(info, vi);
                            lemma_all_wf(payload);
                            assert(types_of(payload) == ps);
                            if ps.len() == 1 {
                                assert(payload[0].ty == ps[0]);
                                lemma_lookup_wf(payload[0], ps[0], rest);
                            } else if ps.len() > 1 {
                                lemma_lookup_wf(tuple_model(payload), TypeModel::Tuple(ps), rest);
                            }
                        }
                    }
                }
            },
            _ => {},
        }
    }
}

/// Injection succeeds exactly when the witness holds a value at the path and
/// the injected value has that value's type; afterwards the witness holds
/// the injected value there.
pub proof fn lemma_inject_then_lookup(w: ValueModel, t: TypeModel, path: Seq<RouteModel>, v: ValueModel)
    requires
        wf_value(w),
        w.ty == t,
        wf_value(v),
    ensures
        inject_spec(w, t, path, v) is Ok <==> (lookup_spec(w, t, path) matches Some(x) && x.ty == v.ty),
        inject_spec(w, t, path, v) matches Ok(y) ==> lookup_spec(y, t, path) == Some(v),
    decreases path.len(),
{
    lemma_inject_typed(w, t, path, v);
    if path.len() > 0 && route_supported(path[0], t) {
        let rest = path.drop_first();
        match t {
            TypeModel::Either(lt, rt) => match w.inner {
                InnerModel::Left(x) => lemma_inject_then_lookup(*x, *lt, rest, v),
                InnerModel::Right(x) => lemma_inject_then_lookup(*x, *rt, rest, v),
                _ => {},
            },
            TypeModel::Array(et, len) => {
                let idx = path[0]->Index_0;
                if let InnerModel::Array(es) = w.inner {
                    if idx < len {
                        lemma_all_wf(es);
                        lemma_inject_then_lookup(es[idx as int], *et, rest, v);
                        if let Ok(y) = inject_spec(es[idx as int], *et, rest, v) {
                            assert(es.update(idx as int, y)[idx as int] == y);
                        }
                    }
                }
            },
            TypeModel::Tuple(ts) => {
                let idx = path[0]->Index_0;
                if let InnerModel::Tuple(es) = w.inner {
                    if idx < ts.len() {
                        lemma_all_wf(es);
                        assert(ts[idx as int] == types_of(es)[idx as int]);
                        lemma_inject_then_lookup(es[idx as int], ts[idx as int], rest, v);
                        lemma_inject_typed(es[idx as int], ts[idx as int], rest, v);
                        if let Ok(y) = inject_spec(es[idx as int], ts[idx as int], rest, v) {
                            let nes = es.update(idx as int, y);
                            assert(nes[idx as int] == y);
                            assert(types_of(nes) =~= ts);
                        }
                    }
                }
            },
            TypeModel::Enum(info) => {
                let name = path[0]->Name_0;
                if let Some(vi) = find_variant(info.variants, name) {
                    if let InnerModel::Enum(wi, payload) = w.inner {
                        if wi == vi {
                            let ps = variant_payload(info, vi);
                            lemma_all_wf(payload);
                            assert(types_of(payload) == ps);
                            if ps.len() == 1 {
                                assert(payload[0].ty == ps[0]);
                                lemma_inject_then_lookup(payload[0], ps[0], rest, v);
                                if let Ok(y) = inject_spec(payload[0], ps[0], rest, v) {
                                    assert(seq![y][0] == y);
                                }
                            } else if ps.len() > 1 {
                                let tv = tuple_model(payload);
                                lemma_inject_then_lookup(tv, TypeModel::Tuple(ps), rest, v);
                                lemma_inject_typed(tv, TypeModel::Tuple(ps), rest, v);
                                if let Ok(y) = inject_spec(tv, TypeModel::Tuple(ps), rest, v) {
                                    assert(y.inner is Tuple);
                                    assert(tuple_model(tuple_elems(y)) == y);
                                }
                            }
                        }
                    }
                }
            },
            _ => {},
        }
    }
}

/// Putting back the value that a witness already holds at a path gives the
/// witness unchanged.
pub proof fn lemma_inject_same_value(w: ValueModel, t: TypeModel, path: Seq<RouteModel>)
    requires
        wf_value(w),
        w.ty == t,
    ensures
        lookup_spec(w, t, path) matches Some(x) ==> inject_spec(w, t, path, x) == Ok::<
            ValueModel,
            WrapErrorModel,
        >(w),
    decreases path.len(),
{
    if path.len() > 0 && route_supported(path[0], t) {
        let rest = path.drop_first();
        match t {
            TypeModel::Either(lt, rt) => match w.inner {
                InnerModel::Left(x) => lemma_inject_same_value(*x, *lt, rest),
                InnerModel::Right(x) => lemma_inject_same_value(*x, *rt, rest),
                _ => {},
            },
            TypeModel::Array(et, len) => {
                let idx = path[0]->Index_0;
                if let InnerModel::Array(es) = w.inner {
                    if idx < len {
                        lemma_all_wf(es);
                        lemma_inject_same_value(es[idx as int], *et, rest);
                        assert(es.update(idx as int, es[idx as int]) =~= es);
                    }
                }
            },
            TypeModel::Tuple(ts) => {
                let idx = path[0]->Index_0;
                if let InnerModel::Tuple(es) = w.inner {
                    if idx < ts.len() {
                        lemma_all_wf(es);
                        assert(ts[idx as int] == types_of(es)[idx as int]);
                        lemma_inject_same_value(es[idx as int], ts[idx as int], rest);
                        assert(es.update(idx as int, es[idx as int]) =~= es);
                    }
                }
            },
            TypeModel::Enum(info) => {
                let name = path[0]->Name_0;
                if let Some(vi) = find_variant(info.variants, name) {
                    if let InnerModel::Enum(wi, payload) = w.inner {
                        if wi == vi {
                            let ps = variant_payload(info, vi);
                            lemma_all_wf(payload);
                            assert(types_of(payload) == ps);
                            if ps.len() == 1 {
                                assert(payload[0].ty == ps[0]);
                                lemma_inject_same_value(payload[0], ps[0], rest);
                                assert(seq![payload[0]] =~= payload);
                            } else if ps.len() > 1 {
                                lemma_inject_same_value(tuple_model(payload), TypeModel::Tuple(ps), rest);
                            }
                        }
                    }
                }
            },
            _ => {},
        }
    }
}

/// Of two injections at the same path, the later one decides: injecting
/// `v2` into the result of injecting `v1` gives what injecting `v2` into the
/// starting witness gives.
pub proof fn lemma_inject_twice(
    w: ValueModel,
    t: TypeModel,
    path: Seq<RouteModel>,
    v1: ValueModel,
    v2: ValueModel,
)
    requires
        wf_value(w),
        w.ty == t,
        wf_value(v1),
        wf_value(v2),
    ensures
        inject_spec(w, t, path, v1) matches Ok(y) ==> inject_spec(y, t, path, v2) == inject_spec(
            w,
            t,
            path,
            v2,
        ),
    decreases path.len(),
{
    if path.len() > 0 && route_supported(path[0], t) {
        let rest = path.drop_first();
        match t {
            TypeModel::Either(lt, rt) => match w.inner {
                InnerModel::Left(x) => lemma_inject_twice(*x, *lt, rest, v1, v2),
                InnerModel::Right(x) => lemma_inject_twice(*x, *rt, rest, v1, v2),
                _ => {},
            },
            TypeModel::Array(et, len) => {
                let idx = path[0]->Index_0;
                if let InnerModel::Array(es) = w.inner {
                    if idx < len {
                        lemma_all_wf(es);
                        lemma_inject_twice(es[idx as int], *et, rest, v1, v2);
                        if let Ok(y) = inject_spec(es[idx as int], *et, rest, v1) {
                            let nes = es.update(idx as int, y);
                            assert(nes[idx as int] == y);
                            if let Ok(z) = inject_spec(es[idx as int], *et, rest, v2) {
                                assert(nes.update(idx as int, z) =~= es.update(idx as int, z));
                            }
                        }
                    }
                }
            },
            TypeModel::Tuple(ts) => {
                let idx = path[0]->Index_0;
                if let InnerModel::Tuple(es) = w.inner {
                    if idx < ts.len() {
                        lemma_all_wf(es);
                        assert(ts[idx as int] == types_of(es)[idx as int]);
                        lemma_inject_twice(es[idx as int], ts[idx as int], rest, v1, v2);
                        lemma_inject_typed(es[idx as int], ts[idx as int], rest, v1);
                        if let Ok(y) = inject_spec(es[idx as int], ts[idx as int], rest, v1) {
                            let nes = es.update(idx as int, y);
                            assert(nes[idx as int] == y);
                            assert(types_of(nes) =~= ts);
                            if let Ok(z) = inject_spec(es[idx as int], ts[idx as int], rest, v2) {
                                assert(nes.update(idx as int, z) =~= es.update(idx as int, z));
                            }
                        }
                    }
                }
            },
            TypeModel::Enum(info) => {
                let name = path[0]->Name_0;
                if let Some(vi) = find_variant(info.variants, name) {
                    if let InnerModel::Enum(wi, payload) = w.inner {
                        if wi == vi {
                            let ps = variant_payload(info, vi);
                            lemma_all_wf(payload);
                            assert(types_of(payload) == ps);
                            if ps.len() == 1 {
                                assert(payload[0].ty == ps[0]);
                                lemma_inject_twice(payload[0], ps[0], rest, v1, v2);
                                if let Ok(y) = inject_spec(payload[0], ps[0], rest, v1) {
                                    assert(seq![y][0] == y);
                                }
                            } else if ps.len() > 1 {
                                let tv = tuple_model(payload);
                                lemma_inject_twice(tv, TypeModel::Tuple(ps), rest, v1, v2);
                                lemma_inject_typed(tv, TypeModel::Tuple(ps), rest, v1);
                                if let Ok(y) = inject_spec(tv, TypeModel::Tuple(ps), rest, v1) {
                                    assert(y.inner is Tuple);
                                    assert(tuple_model(tuple_elems(y)) == y);
                                }
                            }
                        }
                    }
                }
            },
            _ => {},
        }
    }
}

/// Injects values into witnesses.
pub struct WtnsInjector {}

impl WtnsInjector {
    /// Parses each step of `path`: a step that reads as a `usize` is an
    /// index, any other step is a name.
    pub fn parse_path(path: &[&str]) -> (r: Vec<WtnsPathRoute>)
        ensures
            routes_view(r@) == path_routes(path@),
    {
        let mut out: Vec<WtnsPathRoute> = Vec::new();
        let mut i: usize = 0;
        while i < path.len()
            invariant
                i <= path.len(),
                out@.len() == i,
                forall|j: int| 0 <= j < i ==> #[trigger] out@[j]@ == parse_route(path@[j]@),
            decreases path.len() - i,
        {
            let step: &str = path[i];
            let route = match parse_usize(step) {
                Some(index) => WtnsPathRoute::Index(index),
                None => WtnsPathRoute::Name(String::from_str(step)),
            };
            out.push(route);
            i += 1;
        }
        assert(routes_view(out@) =~= path_routes(path@));
        out
    }

    /// The witness `witness`, of type `witness_types`, with `value` put at
    /// the position that `path` describes.
    ///
    /// # Errors
    /// `UnsupportedPathType` for a step that the type at that point cannot
    /// take (or a unit variant), `IdxOutOfBounds` for an index at or beyond
    /// the length, `EitherBranchMismatch` or `EnumVariantMismatch` when the
    /// witness holds another branch or variant than the path selects,
    /// `UnknownEnumVariant` for a variant the enum does not declare, and
    /// `RootTypeMismatch` when `value` does not have the type reached.
    pub fn inject_value(witness: &HlValue, witness_types: &HlType, path: &[&str], value: HlValue) -> (r:
        Result<HlValue, WtnsWrappingError>)
        requires
            wf_value(witness@),
            witness@.ty == witness_types@,
            wf_value(value@),
        ensures
            inject_result_view(r) == inject_spec(witness@, witness_types@, path_routes(path@), value@),
    {
        let routes = Self::parse_path(path);
        assert(routes_view(routes@).skip(0) =~= routes_view(routes@));
        inject_from(witness, witness_types, &routes, 0, value)
    }
}

/// Whether the step can be taken from a value of type `t`.
fn route_supported_exec(route: &WtnsPathRoute, t: &HlType) -> (r: bool)
    ensures
        r == route_supported(route@, t@),
{
    match route {
        WtnsPathRoute::Index(_) => match t {
            HlType::Array(..) => true,
            HlType::Tuple(..) => true,
            _ => false,
        },
        WtnsPathRoute::Name(n) => match t {
            HlType::Enum(..) => true,
            HlType::Either(..) => str_eq(n.as_str(), "Left") || str_eq(n.as_str(), "Right"),
            _ => false,
        },
    }
}

#[verifier::rlimit(50)]
fn inject_from(w: &HlValue, t: &HlType, path: &Vec<WtnsPathRoute>, pos: usize, value: HlValue) -> (r:
    Result<HlValue, WtnsWrappingError>)
    requires
        pos <= path.len(),
        wf_value(w@),
        w@.ty == t@,
        wf_value(value@),
    ensures
        inject_result_view(r) == inject_spec(w@, t@, routes_view(path@).skip(pos as int), value@),
    decreases path.len() - pos,
{
    let ghost rs = routes_view(path@).skip(pos as int);
    proof {
        lemma_inject_typed(w@, t@, rs, value@);
    }
    if pos == path.len() {
        if value.ty.equals(t) {
            return Ok(value);
        } else {
            return Err(WtnsWrappingError::RootTypeMismatch(t.to_text(), value.ty.to_text()));
        }
    }
    let route = &path[pos];
    assert(rs[0] == route@);
    assert(rs.drop_first() =~= routes_view(path@).skip(pos + 1));
    if !route_supported_exec(route, t) {
        return Err(WtnsWrappingError::UnsupportedPathType(t.to_text()));
    }
    match t {
        HlType::Either(lt, rt) => {
            let name = match route {
                WtnsPathRoute::Name(n) => n,
                WtnsPathRoute::Index(_) => {
                    assert(false);
                    return Err(WtnsWrappingError::EitherBranchMismatch);
                },
            };
            let go_left = str_eq(name.as_str(), "Left");
            match &w.inner {
                ValueInner::Left(x) => {
                    if go_left {
                        let y = inject_from(x, lt, path, pos + 1, value)?;
                        Ok(HlValue::left(y, rt.duplicate()))
                    } else {
                        Err(WtnsWrappingError::EitherBranchMismatch)
                    }
                },
                ValueInner::Right(x) => {
                    if !go_left {
                        let y = inject_from(x, rt, path, pos + 1, value)?;
                        Ok(HlValue::right(lt.duplicate(), y))
                    } else {
                        Err(WtnsWrappingError::EitherBranchMismatch)
                    }
                },
                _ => Err(WtnsWrappingError::EitherBranchMismatch),
            }
        },
        HlType::Array(et, len) => {
            let idx = match route {
                WtnsPathRoute::Index(i) => *i,
                WtnsPathRoute::Name(_) => {
                    assert(false);
                    return Err(WtnsWrappingError::EitherBranchMismatch);
                },
            };
            if idx >= *len {
                return Err(WtnsWrappingError::IdxOutOfBounds(*len, idx));
            }
            match &w.inner {
                ValueInner::Array(es) => {
                    proof {
                        lemma_values_view(es@);
                        lemma_all_wf(values_view(es@));
                    }
                    let y = inject_from(&es[idx], et, path, pos + 1, value)?;
                    let mut elems = values_duplicate(es);
                    proof {
                        lemma_values_view(elems@);
                    }
                    elems.set(idx, y);
                    proof {
                        lemma_values_view(elems@);
                        assert(values_view(elems@) =~= values_view(es@).update(idx as int, y@));
                    }
                    Ok(HlValue::array(elems, et.duplicate()))
                },
                _ => Err(WtnsWrappingError::UnsupportedPathType(t.to_text())),
            }
        },
        HlType::Tuple(ts) => {
            let idx = match route {
                WtnsPathRoute::Index(i) => *i,
                WtnsPathRoute::Name(_) => {
                    assert(false);
                    return Err(WtnsWrappingError::EitherBranchMismatch);
                },
            };
            proof {
                lemma_types_view(ts@);
            }
            if idx >= ts.len() {
                return Err(WtnsWrappingError::IdxOutOfBounds(ts.len(), idx));
            }
            match &w.inner {
                ValueInner::Tuple(es) => {
                    proof {
                        lemma_values_view(es@);
                        lemma_all_wf(values_view(es@));
                        assert(types_view(ts@) == types_of(values_view(es@)));
                        assert(types_view(ts@)[idx as int] == types_of(values_view(es@))[idx as int]);
                    }
                    let y = inject_from(&es[idx], &ts[idx], path, pos + 1, value)?;
                    let mut elems = values_duplicate(es);
                    proof {
                        lemma_values_view(elems@);
                    }
                    elems.set(idx, y);
                    proof {
                        lemma_values_view(elems@);
                        assert(values_view(elems@) =~= values_view(es@).update(idx as int, y@));
                    }
                    Ok(HlValue::tuple(elems))
                },
                _ => Err(WtnsWrappingError::UnsupportedPathType(t.to_text())),
            }
        },
        HlType::Enum(info) => {
            let name = match route {
                WtnsPathRoute::Name(n) => n,
                WtnsPathRoute::Index(_) => {
                    assert(false);
                    return Err(WtnsWrappingError::EitherBranchMismatch);
                },
            };
            proof {
                lemma_variants_view(info.variants@);
            }
            let ghost im = info@;
            assert(t@ == TypeModel::Enum(im));
            let vi = match find_variant_index(&info.variants, name.as_str()) {
                Some(vi) => vi,
                None => {
                    return Err(WtnsWrappingError::UnknownEnumVariant(name.clone(), t.to_text()));
                },
            };
            proof {
                lemma_find_variant_from(im.variants, name@, 0);
            }
            match &w.inner {
                ValueInner::Enum(wi, payload) => {
                    if *wi != vi {
                        return Err(
                            WtnsWrappingError::EnumVariantMismatch(
                                name.clone(),
                                info.variants[*wi].name.clone(),
                            ),
                        );
                    }
                    let variant = &info.variants[vi];
                    proof {
                        lemma_types_view(variant.payload@);
                        lemma_values_view(payload@);
                        lemma_all_wf(values_view(payload@));
                        assert(types_of(values_view(payload@)) == variant_payload(im, vi as nat));
                        assert(variant_payload(im, vi as nat) == types_view(variant.payload@));
                    }
                    let plen = variant.payload.len();
                    if plen == 0 {
                        Err(WtnsWrappingError::UnsupportedPathType(t.to_text()))
                    } else if plen == 1 {
                        assert(types_of(values_view(payload@))[0] == types_view(variant.payload@)[0]);
                        let y = inject_from(&payload[0], &variant.payload[0], path, pos + 1, value)?;
                        let mut p: Vec<HlValue> = Vec::new();
                        p.push(y);
                        proof {
                            lemma_values_view(p@);
                            assert(values_view(p@) =~= seq![y@]);
                        }
                        Ok(HlValue { inner: ValueInner::Enum(vi, p), ty: t.duplicate() })
                    } else {
                        let tv = HlValue::tuple(values_duplicate(payload));
                        let tt = HlType::Tuple(types_duplicate(&variant.payload));
                        assert(tt@ == TypeModel::Tuple(variant_payload(im, vi as nat)));
                        let y = inject_from(&tv, &tt, path, pos + 1, value)?;
                        let es = match y.inner {
                            ValueInner::Tuple(es) => es,
                            _ => Vec::new(),
                        };
                        proof {
                            assert(values_view(es@) == tuple_elems(y@)) by {
                                if !(y@.inner is Tuple) {
                                    assert(values_view(Seq::<HlValue>::empty()) =~= Seq::<
                                        ValueModel,
                                    >::empty());
                                }
                            }
                        }
                        Ok(HlValue { inner: ValueInner::Enum(vi, es), ty: t.duplicate() })
                    }
                },
                _ => Err(WtnsWrappingError::UnsupportedPathType(t.to_text())),
            }
        },
        _ => Err(WtnsWrappingError::UnsupportedPathType(t.to_text())),
    }
}

} // verus!
