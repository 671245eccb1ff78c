//! Schemas: the fields of a configuration and how each is bound.

use crate::dotenv::{
    all_parsed_from, failure_of, kept, lemma_preload_keeps, make_no_file_error, no_file_error,
    parse_file, parse_files, parsed_from, preload, preload_error, preloaded, FileRead, Preload,
};
use crate::env::Env;
use crate::error::{CfgError, CfgErrorView};
use crate::field::Rule;
use crate::tagged::{
    bind_list_field, bind_scalar_field, list_field, outcome, scalar_field, ScalarType,
};
use crate::value::{bound_views, Bound, Config, Value, ValueView};
use vstd::prelude::*;

verus! {

/// The shape of a field and, with it, how the field is bound. A nested
/// field has no rule of its own: it is bound field by field, by its schema.
#[derive(Debug, PartialEq, Eq)]
pub enum FieldKind {
    /// One value of a scalar type.
    Scalar(ScalarType, Rule),
    /// A list of values of a scalar type.
    List(ScalarType, Rule),
    /// A configuration of its own.
    Nested(Schema),
}

/// One field of a schema.
#[derive(Debug, PartialEq, Eq)]
pub struct FieldSpec {
    pub name: String,
    pub kind: FieldKind,
}

/// The fields of a configuration, in the order of their declaration.
#[derive(Debug, PartialEq, Eq)]
pub struct Schema {
    pub fields: Vec<FieldSpec>,
}

/// What `field` is bound to in `env`. The error of a nested field is
/// that of the field inside it that failed, as it stands.
pub open spec fn field_binding(env: Map<Seq<char>, Seq<char>>, field: FieldSpec) -> Result<
    ValueView,
    CfgErrorView,
>
    decreases field, 0nat,
{
    match field.kind {
        FieldKind::Scalar(ty, rule) => scalar_field(env, ty, rule),
        FieldKind::List(ty, rule) => list_field(env, ty, rule),
        FieldKind::Nested(schema) => match fields_binding(env, schema.fields@) {
            Ok(fields) => Ok(ValueView::Nested(fields)),
            Err(e) => Err(e),
        },
    }
}

/// What `fields` are bound to in `env`: each name with its value, in
/// order, or the error of the first field that fails.
pub open spec fn fields_binding(env: Map<Seq<char>, Seq<char>>, fields: Seq<FieldSpec>) -> Result<
    Seq<(Seq<char>, ValueView)>,
    CfgErrorView,
>
    decreases fields, 1nat,
{
    if fields.len() == 0 {
        Ok(Seq::empty())
    } else {
        match fields_binding(env, fields.drop_last()) {
            Err(e) => Err(e),
            Ok(bound) => match field_binding(env, fields.last()) {
                Err(e) => Err(e),
                Ok(v) => Ok(bound.push((fields.last().name@, v))),
            },
        }
    }
}

/// The outcome of binding a schema, as a mathematical value.
pub open spec fn config_outcome(r: Result<Config, CfgError>) -> Result<
    Seq<(Seq<char>, ValueView)>,
    CfgErrorView,
> {
    match r {
        Ok(c) => Ok(c@),
        Err(e) => Err(e@),
    }
}

/// Once a field fails, the schema fails with its error, whatever follows.
pub proof fn lemma_first_failure_stays(
    env: Map<Seq<char>, Seq<char>>,
    fields: Seq<FieldSpec>,
    upto: int,
)
    requires
        0 <= upto <= fields.len(),
        fields_binding(env, fields.take(upto)) is Err,
    ensures
        fields_binding(env, fields) == fields_binding(env, fields.take(upto)),
    decreases fields.len() - upto,
{
    if upto == fields.len() {
        assert(fields.take(upto) =~= fields);
    } else {
        assert(fields.take(upto + 1).drop_last() =~= fields.take(upto));
        lemma_first_failure_stays(env, fields, upto + 1);
    }
}

impl Schema {
    /// Binds the fields in `env`, in order, up to the first that fails.
    pub fn bind(&self, env: &Env) -> (r: Result<Config, CfgError>)
        ensures
            config_outcome(r) == fields_binding(env@, self.fields@),
        decreases self,
    {
        let mut bound: Vec<Bound> = Vec::new();
        let n: usize = self.fields.len();
        let mut i: usize = 0;
        while i < n
            invariant
                i <= n,
                n == self.fields.len(),
                fields_binding(env@, self.fields@.take(i as int)) == Ok::<
                    Seq<(Seq<char>, ValueView)>,
                    CfgErrorView,
                >(bound_views(bound@)),
            decreases n - i,
        {
            let field = &self.fields[i];
            proof {
                let upto = self.fields@.take(i + 1);
                assert(upto.drop_last() =~= self.fields@.take(i as int));
            }
            let value = match &field.kind {
                FieldKind::Scalar(ty, rule) => bind_scalar_field(*ty, rule, env),
                FieldKind::List(ty, rule) => bind_list_field(*ty, rule, env),
                FieldKind::Nested(schema) => match schema.bind(env) {
                    Ok(config) => Ok(Value::Nested(config)),
                    Err(e) => Err(e),
                },
            };
            proof {
                assert(outcome(value) == field_binding(env@, *field));
            }
            match value {
                Ok(v) => {
                    let entry = Bound { name: field.name.clone(), value: v };
                    proof {
                        assert(bound@.push(entry).drop_last() =~= bound@);
                    }
                    bound.push(entry);
                },
                Err(e) => {
                    proof {
                        lemma_first_failure_stays(env@, self.fields@, i + 1);
                    }
                    return Err(e);
                },
            }
            i += 1;
        }
        proof {
            assert(self.fields@.take(n as int) =~= self.fields@);
        }
        Ok(Config { fields: bound })
    }
}

/// What a load of `schema` gives where `env` is the environment before it
/// and `file` the candidate file: the error of taking the file in, or
/// else what the fields are bound to once the file is merged.
pub open spec fn loaded(env: Map<Seq<char>, Seq<char>>, schema: Schema, file: Preload) -> Result<
    Seq<(Seq<char>, ValueView)>,
    CfgErrorView,
> {
    match preload_error(file) {
        Some(e) => Err(e),
        None => fields_binding(preloaded(env, file), schema.fields@),
    }
}

/// What a load of `schema` over the candidates in order gives, `last`
/// being the error of the candidate tried before them: the configuration
/// of the first candidate with which the load goes through, else the
/// error of the last one, and without any candidate the error that says so.
pub open spec fn first_loaded(
    env: Map<Seq<char>, Seq<char>>,
    schema: Schema,
    files: Seq<Preload>,
    last: Option<CfgErrorView>,
) -> Result<Seq<(Seq<char>, ValueView)>, CfgErrorView>
    decreases files.len(),
{
    if files.len() == 0 {
        match last {
            Some(e) => Err(e),
            None => Err(no_file_error()),
        }
    } else {
        match loaded(env, schema, files[0]) {
            Ok(config) => Ok(config),
            Err(e) => first_loaded(preloaded(env, files[0]), schema, files.skip(1), Some(e)),
        }
    }
}

/// The environment after a load of `schema` over the candidates in order:
/// every candidate that was tried is merged as far as it could be.
pub open spec fn first_loaded_env(
    env: Map<Seq<char>, Seq<char>>,
    schema: Schema,
    files: Seq<Preload>,
) -> Map<Seq<char>, Seq<char>>
    decreases files.len(),
{
    if files.len() == 0 {
        env
    } else if loaded(env, schema, files[0]) is Ok {
        preloaded(env, files[0])
    } else {
        first_loaded_env(preloaded(env, files[0]), schema, files.skip(1))
    }
}

/// A load over candidates overrides nothing that the environment held.
pub proof fn lemma_first_loaded_keeps(
    env: Map<Seq<char>, Seq<char>>,
    schema: Schema,
    files: Seq<Preload>,
)
    ensures
        kept(env, first_loaded_env(env, schema, files)),
    decreases files.len(),
{
    if files.len() > 0 {
        lemma_preload_keeps(env, files[0]);
        if loaded(env, schema, files[0]) is Err {
            lemma_first_loaded_keeps(preloaded(env, files[0]), schema, files.skip(1));
        }
    }
}

impl Schema {
    /// Merges `file` into `env` and binds the fields.
    pub fn load_from(&self, env: &mut Env, file: &Preload) -> (r: Result<Config, CfgError>)
        ensures
            final(env)@ == preloaded(old(env)@, *file),
            config_outcome(r) == loaded(old(env)@, *self, *file),
    {
        match preload(env, file) {
            Ok(_) => self.bind(env),
            Err(e) => Err(e),
        }
    }

    /// Loads over the candidates in order; the first with which the load
    /// goes through wins.
    pub fn load_iter_from(&self, env: &mut Env, files: &Vec<Preload>) -> (r: Result<
        Config,
        CfgError,
    >)
        ensures
            final(env)@ == first_loaded_env(old(env)@, *self, files@),
            config_outcome(r) == first_loaded(old(env)@, *self, files@, None),
    {
        let n: usize = files.len();
        let mut last: Option<CfgError> = None;
        let mut i: usize = 0;
        proof {
            assert(files@.skip(0) =~= files@);
        }
        while i < n
            invariant
                i <= n,
                n == files.len(),
                first_loaded_env(old(env)@, *self, files@) == first_loaded_env(
                    env@,
                    *self,
                    files@.skip(i as int),
                ),
                first_loaded(old(env)@, *self, files@, None) == first_loaded(
                    env@,
                    *self,
                    files@.skip(i as int),
                    failure_of(last),
                ),
            decreases n - i,
        {
            proof {
                assert(files@.skip(i as int).skip(1) =~= files@.skip(i + 1));
            }
            match self.load_from(env, &files[i]) {
                Ok(config) => {
                    return Ok(config);
                },
                Err(e) => {
                    last = Some(e);
                },
            }
            i += 1;
        }
        match last {
            Some(e) => Err(e),
            None => Err(make_no_file_error()),
        }
    }

    /// Loads a configuration: takes the file behind `file` into `env`,
    /// then binds the fields in order. The first error ends the load.
    ///
    /// A `$NAME` in a value of the file is resolved by the parser, against
    /// the variables of the process and the lines above it in the same
    /// file, not against `env`. Where `env` holds anything else than the
    /// process environment, the value is not what `env` would give.
    pub fn load(&self, env: &mut Env, file: &FileRead) -> (r: Result<Config, CfgError>)
        ensures
            exists|parsed: Preload|
                parsed_from(*file, parsed) && final(env)@ == preloaded(old(env)@, parsed)
                    && config_outcome(r) == loaded(old(env)@, *self, parsed),
            file is Missing ==> final(env)@ == old(env)@ && config_outcome(r) == fields_binding(
                old(env)@,
                self.fields@,
            ),
            kept(old(env)@, final(env)@),
    {
        let parsed = parse_file(file);
        proof {
            lemma_preload_keeps(env@, parsed);
        }
        self.load_from(env, &parsed)
    }

    /// Loads a configuration from the first of the candidate files with
    /// which the load goes through. As with `load`, a `$NAME` in a value
    /// is resolved against the process and the file itself, not against
    /// `env`: what an earlier candidate merged is not seen by the values
    /// of a later one.
    pub fn load_iter(&self, env: &mut Env, files: &Vec<FileRead>) -> (r: Result<Config, CfgError>)
        ensures
            exists|parsed: Seq<Preload>|
                all_parsed_from(files@, parsed) && final(env)@ == first_loaded_env(
                    old(env)@,
                    *self,
                    parsed,
                ) && config_outcome(r) == first_loaded(old(env)@, *self, parsed, None),
            files.len() == 0 ==> config_outcome(r) == Err::<
                Seq<(Seq<char>, ValueView)>,
                CfgErrorView,
            >(no_file_error()) && final(env)@ == old(env)@,
            kept(old(env)@, final(env)@),
    {
        let parsed = parse_files(files);
        proof {
            lemma_first_loaded_keeps(env@, *self, parsed@);
        }
        self.load_iter_from(env, &parsed)
    }
}

} // verus!
