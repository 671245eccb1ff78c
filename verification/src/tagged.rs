//! Scalar types named at run time, and the values of each as `ScalarValue`.

use crate::env::Env;
use crate::error::{CfgError, CfgErrorView};
use crate::field::{list_binding, scalar_binding, Rule};
use crate::parse::value_views;
use crate::scalar::Scalar;
use crate::value::{scalar_views, ScalarValue, ScalarView, Value, ValueView};
use vstd::prelude::*;

verus! {

/// The scalar types that a schema can name.
#[derive(Clone, Copy, Debug, PartialEq, Eq, Structural)]
pub enum ScalarType {
    Text,
    Bool,
    Char,
    I8,
    I16,
    I32,
    I64,
    I128,
    Isize,
    U8,
    U16,
    U32,
    U64,
    U128,
    Usize,
}

/// A scalar type whose values a configuration can hold.
pub trait Tagged: Scalar {
    /// The value `v` as a `ScalarValue`.
    spec fn tagged(v: Self::V) -> ScalarView;

    /// This value as a `ScalarValue`.
    fn tag(&self) -> (r: ScalarValue)
        ensures
            r@ == Self::tagged(self@),
    ;
}

impl Tagged for String {
    open spec fn tagged(v: Seq<char>) -> ScalarView {
        ScalarView::Text(v)
    }

    fn tag(&self) -> (r: ScalarValue) {
        ScalarValue::Text(self.clone())
    }
}

impl Tagged for bool {
    open spec fn tagged(v: bool) -> ScalarView {
        ScalarView::Bool(v)
    }

    fn tag(&self) -> (r: ScalarValue) {
        ScalarValue::Bool(*self)
    }
}

impl Tagged for char {
    open spec fn tagged(v: char) -> ScalarView {
        ScalarView::Char(v)
    }

    fn tag(&self) -> (r: ScalarValue) {
        ScalarValue::Char(*self)
    }
}

impl Tagged for i8 {
    open spec fn tagged(v: i8) -> ScalarView {
        ScalarView::Int(v as i128)
    }

    fn tag(&self) -> (r: ScalarValue) {
        ScalarValue::Int(*self as i128)
    }
}

impl Tagged for i16 {
    open spec fn tagged(v: i16) -> ScalarView {
        ScalarView::Int(v as i128)
    }

    fn tag(&self) -> (r: ScalarValue) {
        ScalarValue::Int(*self as i128)
    }
}

impl Tagged for i32 {
    open spec fn tagged(v: i32) -> ScalarView {
        ScalarView::Int(v as i128)
    }

    fn tag(&self) -> (r: ScalarValue) {
        ScalarValue::Int(*self as i128)
    }
}

impl Tagged for i64 {
    open spec fn tagged(v: i64) -> ScalarView {
        ScalarView::Int(v as i128)
    }

    fn tag(&self) -> (r: ScalarValue) {
        ScalarValue::Int(*self as i128)
    }
}

impl Tagged for i128 {
    open spec fn tagged(v: i128) -> ScalarView {
        ScalarView::Int(v as i128)
    }

    fn tag(&self) -> (r: ScalarValue) {
        ScalarValue::Int(*self as i128)
    }
}

impl Tagged for isize {
    open spec fn tagged(v: isize) -> ScalarView {
        ScalarView::Int(v as i128)
    }

    fn tag(&self) -> (r: ScalarValue) {
        ScalarValue::Int(*self as i128)
    }
}

impl Tagged for u8 {
    open spec fn tagged(v: u8) -> ScalarView {
        ScalarView::Uint(v as u128)
    }

    fn tag(&self) -> (r: ScalarValue) {
        ScalarValue::Uint(*self as u128)
    }
}

impl Tagged for u16 {
    open spec fn tagged(v: u16) -> ScalarView {
        ScalarView::Uint(v as u128)
    }

    fn tag(&self) -> (r: ScalarValue) {
        ScalarValue::Uint(*self as u128)
    }
}

impl Tagged for u32 {
    open spec fn tagged(v: u32) -> ScalarView {
        ScalarView::Uint(v as u128)
    }

    fn tag(&self) -> (r: ScalarValue) {
        ScalarValue::Uint(*self as u128)
    }
}

impl Tagged for u64 {
    open spec fn tagged(v: u64) -> ScalarView {
        ScalarView::Uint(v as u128)
    }

    fn tag(&self) -> (r: ScalarValue) {
        ScalarValue::Uint(*self as u128)
    }
}

impl Tagged for u128 {
    open spec fn tagged(v: u128) -> ScalarView {
        ScalarView::Uint(v as u128)
    }

    fn tag(&self) -> (r: ScalarValue) {
        ScalarValue::Uint(*self as u128)
    }
}

impl Tagged for usize {
    open spec fn tagged(v: usize) -> ScalarView {
        ScalarView::Uint(v as u128)
    }

    fn tag(&self) -> (r: ScalarValue) {
        ScalarValue::Uint(*self as u128)
    }
}

/// The outcome of binding a field, as a mathematical value.
pub open spec fn outcome(r: Result<Value, CfgError>) -> Result<ValueView, CfgErrorView> {
    match r {
        Ok(v) => Ok(v@),
        Err(e) => Err(e@),
    }
}

/// A bound scalar as the value of a field.
pub open spec fn as_scalar<T: Tagged>(r: Result<T::V, CfgErrorView>) -> Result<
    ValueView,
    CfgErrorView,
> {
    match r {
        Ok(v) => Ok(ValueView::Scalar(T::tagged(v))),
        Err(e) => Err(e),
    }
}

/// A bound list as the value of a field.
pub open spec fn as_list<T: Tagged>(r: Result<Seq<T::V>, CfgErrorView>) -> Result<
    ValueView,
    CfgErrorView,
> {
    match r {
        Ok(values) => Ok(ValueView::List(values.map_values(|v: T::V| T::tagged(v)))),
        Err(e) => Err(e),
    }
}

/// What a scalar field of the type `ty` with `rule` is bound to in `env`.
pub open spec fn scalar_field(env: Map<Seq<char>, Seq<char>>, ty: ScalarType, rule: Rule) -> Result<
    ValueView,
    CfgErrorView,
> {
    match ty {
        ScalarType::Text => as_scalar::<String>(scalar_binding::<String>(env, rule)),
        ScalarType::Bool => as_scalar::<bool>(scalar_binding::<bool>(env, rule)),
        ScalarType::Char => as_scalar::<char>(scalar_binding::<char>(env, rule)),
        ScalarType::I8 => as_scalar::<i8>(scalar_binding::<i8>(env, rule)),
        ScalarType::I16 => as_scalar::<i16>(scalar_binding::<i16>(env, rule)),
        ScalarType::I32 => as_scalar::<i32>(scalar_binding::<i32>(env, rule)),
        ScalarType::I64 => as_scalar::<i64>(scalar_binding::<i64>(env, rule)),
        ScalarType::I128 => as_scalar::<i128>(scalar_binding::<i128>(env, rule)),
        ScalarType::Isize => as_scalar::<isize>(scalar_binding::<isize>(env, rule)),
        ScalarType::U8 => as_scalar::<u8>(scalar_binding::<u8>(env, rule)),
        ScalarType::U16 => as_scalar::<u16>(scalar_binding::<u16>(env, rule)),
        ScalarType::U32 => as_scalar::<u32>(scalar_binding::<u32>(env, rule)),
        ScalarType::U64 => as_scalar::<u64>(scalar_binding::<u64>(env, rule)),
        ScalarType::U128 => as_scalar::<u128>(scalar_binding::<u128>(env, rule)),
        ScalarType::Usize => as_scalar::<usize>(scalar_binding::<usize>(env, rule)),
    }
}

/// What a list field with items of the type `ty` and with `rule` is bound
/// to in `env`.
pub open spec fn list_field(env: Map<Seq<char>, Seq<char>>, ty: ScalarType, rule: Rule) -> Result<
    ValueView,
    CfgErrorView,
> {
    match ty {
        ScalarType::Text => as_list::<String>(list_binding::<String>(env, rule)),
        ScalarType::Bool => as_list::<bool>(list_binding::<bool>(env, rule)),
        ScalarType::Char => as_list::<char>(list_binding::<char>(env, rule)),
        ScalarType::I8 => as_list::<i8>(list_binding::<i8>(env, rule)),
        ScalarType::I16 => as_list::<i16>(list_binding::<i16>(env, rule)),
        ScalarType::I32 => as_list::<i32>(list_binding::<i32>(env, rule)),
        ScalarType::I64 => as_list::<i64>(list_binding::<i64>(env, rule)),
        ScalarType::I128 => as_list::<i128>(list_binding::<i128>(env, rule)),
        ScalarType::Isize => as_list::<isize>(list_binding::<isize>(env, rule)),
        ScalarType::U8 => as_list::<u8>(list_binding::<u8>(env, rule)),
        ScalarType::U16 => as_list::<u16>(list_binding::<u16>(env, rule)),
        ScalarType::U32 => as_list::<u32>(list_binding::<u32>(env, rule)),
        ScalarType::U64 => as_list::<u64>(list_binding::<u64>(env, rule)),
        ScalarType::U128 => as_list::<u128>(list_binding::<u128>(env, rule)),
        ScalarType::Usize => as_list::<usize>(list_binding::<usize>(env, rule)),
    }
}

/// Binds a scalar field of the type `T` as the value of a field.
fn bind_as_scalar<T: Tagged>(rule: &Rule, env: &Env) -> (r: Result<Value, CfgError>)
    ensures
        outcome(r) == as_scalar::<T>(scalar_binding::<T>(env@, *rule)),
{
    match rule.bind_scalar::<T>(env) {
        Ok(v) => Ok(Value::Scalar(v.tag())),
        Err(e) => Err(e),
    }
}

/// Binds a list field with items of the type `T` as the value of a field.
fn bind_as_list<T: Tagged>(rule: &Rule, env: &Env) -> (r: Result<Value, CfgError>)
    ensures
        outcome(r) == as_list::<T>(list_binding::<T>(env@, *rule)),
{
    match rule.bind_list::<T>(env) {
        Ok(values) => {
            let mut items: Vec<ScalarValue> = Vec::new();
            let n: usize = values.len();
            let mut i: usize = 0;
            while i < n
                invariant
                    i <= n,
                    n == values.len(),
                    items.len() == i,
                    forall|j: int| 0 <= j < i ==> (#[trigger] items@[j])@ == T::tagged(values@[j]@),
                decreases n - i,
            {
                items.push(values[i].tag());
                i += 1;
            }
            proof {
                assert(scalar_views(items@) =~= value_views(values@).map_values(
                    |v: T::V| T::tagged(v),
                ));
            }
            Ok(Value::List(items))
        },
        Err(e) => Err(e),
    }
}

/// Binds a scalar field of the type `ty`.
pub fn bind_scalar_field(ty: ScalarType, rule: &Rule, env: &Env) -> (r: Result<Value, CfgError>)
    ensures
        outcome(r) == scalar_field(env@, ty, *rule),
{
    match ty {
        ScalarType::Text => bind_as_scalar::<String>(rule, env),
        ScalarType::Bool => bind_as_scalar::<bool>(rule, env),
        ScalarType::Char => bind_as_scalar::<char>(rule, env),
        ScalarType::I8 => bind_as_scalar::<i8>(rule, env),
        ScalarType::I16 => bind_as_scalar::<i16>(rule, env),
        ScalarType::I32 => bind_as_scalar::<i32>(rule, env),
        ScalarType::I64 => bind_as_scalar::<i64>(rule, env),
        ScalarType::I128 => bind_as_scalar::<i128>(rule, env),
        ScalarType::Isize => bind_as_scalar::<isize>(rule, env),
        ScalarType::U8 => bind_as_scalar::<u8>(rule, env),
        ScalarType::U16 => bind_as_scalar::<u16>(rule, env),
        ScalarType::U32 => bind_as_scalar::<u32>(rule, env),
        ScalarType::U64 => bind_as_scalar::<u64>(rule, env),
        ScalarType::U128 => bind_as_scalar::<u128>(rule, env),
        ScalarType::Usize => bind_as_scalar::<usize>(rule, env),
    }
}

/// Binds a list field with items of the type `ty`.
pub fn bind_list_field(ty: ScalarType, rule: &Rule, env: &Env) -> (r: Result<Value, CfgError>)
    ensures
        outcome(r) == list_field(env@, ty, *rule),
{
    match ty {
        ScalarType::Text => bind_as_list::<String>(rule, env),
        ScalarType::Bool => bind_as_list::<bool>(rule, env),
        ScalarType::Char => bind_as_list::<char>(rule, env),
        ScalarType::I8 => bind_as_list::<i8>(rule, env),
        ScalarType::I16 => bind_as_list::<i16>(rule, env),
        ScalarType::I32 => bind_as_list::<i32>(rule, env),
        ScalarType::I64 => bind_as_list::<i64>(rule, env),
        ScalarType::I128 => bind_as_list::<i128>(rule, env),
        ScalarType::Isize => bind_as_list::<isize>(rule, env),
        ScalarType::U8 => bind_as_list::<u8>(rule, env),
        ScalarType::U16 => bind_as_list::<u16>(rule, env),
        ScalarType::U32 => bind_as_list::<u32>(rule, env),
        ScalarType::U64 => bind_as_list::<u64>(rule, env),
        ScalarType::U128 => bind_as_list::<u128>(rule, env),
        ScalarType::Usize => bind_as_list::<usize>(rule, env),
    }
}

} // verus!
