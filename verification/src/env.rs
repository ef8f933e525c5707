//! Environments: frames of bindings, each with an optional outer frame.
//!
//! The frames of an interpreter live in one growing table, and a frame
//! names its outer frame by its index there.

use rustc_hash::FxHashMap;
use vstd::prelude::*;
use vstd::string::StringExecFns;
use crate::runtime_errors::{
    missing_argument, thrown, thrown_not_a, RuntimeErr, RuntimeError, RuntimeResult,
};
use crate::text::str_eq;
use crate::value::{group_view, no_meta, view_seq, V, Value};

verus! {

broadcast use group_view;

/// `rustc_hash::FxHasher`, the hasher of the tables of bindings. Nothing is
/// claimed of it.
#[verifier::external_type_specification]
#[verifier::external_body]
pub struct ExFxHasher(rustc_hash::FxHasher);

/// `core::hash::BuildHasherDefault`, which makes the hashers of the tables of
/// bindings. Nothing is claimed of it.
#[verifier::external_type_specification]
#[verifier::external_body]
#[verifier::reject_recursive_types(H)]
pub struct ExBuildHasherDefault<H>(core::hash::BuildHasherDefault<H>);

/// A table of bindings: a hash map from names to values.
pub type Bindings = FxHashMap<String, Value>;

/// What a table of bindings holds: the model of the value of each name.
pub uninterp spec fn bindings_of(data: Bindings) -> Map<Seq<char>, V>;

/// The bindings of a frame that binds nothing.
pub open spec fn no_bindings() -> Map<Seq<char>, V> {
    Map::empty()
}

/// `FxHashMap::default()`: a hash map without entries.
#[verifier::external_body]
fn new_bindings() -> (r: Bindings)
    ensures
        bindings_of(r) == no_bindings(),
{
    FxHashMap::default()
}

/// `HashMap::insert`: afterwards the map gives `value` to `key`, in the place
/// of what it gave to an equal key before, and is unchanged elsewhere.
#[verifier::external_body]
fn bind(data: &mut Bindings, key: String, value: Value)
    ensures
        bindings_of(*final(data)) == bindings_of(*old(data)).insert(key@, value@),
{
    data.insert(key, value);
}

/// `HashMap::get`: the value that the map gives to a key equal to `key`, if
/// it holds one.
#[verifier::external_body]
fn lookup<'a>(data: &'a Bindings, key: &str) -> (r: Option<&'a Value>)
    ensures
        (match r {
            Some(v) => bindings_of(*data).contains_key(key@) && bindings_of(*data)[key@] == v@,
            None => !bindings_of(*data).contains_key(key@),
        }),
{
    data.get(key)
}

/// `HashMap::contains_key`: whether the map holds a key equal to `key`.
#[verifier::external_body]
fn is_bound(data: &Bindings, key: &str) -> (r: bool)
    ensures
        r == bindings_of(*data).contains_key(key@),
{
    data.contains_key(key)
}

/// A frame of bindings.
pub struct Env {
    pub data: Bindings,
    outer: Option<usize>,
}

/// Mathematical model of a frame.
pub ghost struct EnvModel {
    pub data: Map<Seq<char>, V>,
    pub outer: Option<nat>,
}

impl View for Env {
    type V = EnvModel;

    closed spec fn view(&self) -> EnvModel {
        EnvModel {
            data: bindings_of(self.data),
            outer: match self.outer {
                Some(o) => Some(o as nat),
                None => None,
            },
        }
    }
}

/// The models of the frames of a table.
pub open spec fn view_envs(envs: Seq<Env>) -> Seq<EnvModel> {
    Seq::new(envs.len(), |i: int| envs[i]@)
}

/// The nearest frame that binds `key`, going from the frame `env` outwards
/// over at most `fuel` further frames.
pub open spec fn find_spec(envs: Seq<EnvModel>, env: nat, key: Seq<char>, fuel: nat) -> Option<
    nat,
>
    decreases fuel,
{
    if env >= envs.len() {
        None
    } else if envs[env as int].data.contains_key(key) {
        Some(env)
    } else {
        match envs[env as int].outer {
            Some(outer) => if fuel == 0 {
                None
            } else {
                find_spec(envs, outer, key, (fuel - 1) as nat)
            },
            None => None,
        }
    }
}

/// The value of `key` in the nearest frame that binds it, or the error that
/// says that it is not found.
pub open spec fn get_spec(envs: Seq<EnvModel>, env: nat, key: Seq<char>) -> Result<V, V> {
    match find_spec(envs, env, key, envs.len()) {
        Some(found) => Ok(envs[found as int].data[key]),
        None => Err(thrown(RuntimeErr::NotFound(key))),
    }
}

/// The arguments from position `i` on, or none where there are fewer.
pub open spec fn rest_from(exprs: Seq<V>, i: int) -> Seq<V> {
    if 0 <= i <= exprs.len() {
        exprs.subrange(i, exprs.len() as int)
    } else {
        Seq::empty()
    }
}

/// The bindings `data` after the parameters from position `i` on are bound
/// to the arguments at the same positions. The parameter after `&` takes
/// the list of all arguments that are left. A parameter that is no symbol,
/// and one without an argument, is an error.
pub open spec fn bind_spec(
    binds: Seq<V>,
    exprs: Seq<V>,
    i: nat,
    data: Map<Seq<char>, V>,
    atoms: Seq<V>,
) -> Result<Map<Seq<char>, V>, V>
    decreases binds.len() - i,
{
    if i >= binds.len() {
        Ok(data)
    } else if binds[i as int] == V::Symbol("&"@) {
        if i + 1 >= binds.len() {
            Err(thrown(RuntimeErr::MissingArgument("&"@)))
        } else {
            match binds[i as int + 1] {
                V::Symbol(name) => Ok(data.insert(name, V::List(rest_from(exprs, i as int), no_meta()))),
                other => Err(thrown_not_a("map key (symbol)"@, other, atoms)),
            }
        }
    } else {
        match binds[i as int] {
            V::Symbol(name) => if i < exprs.len() {
                bind_spec(binds, exprs, i + 1, data.insert(name, exprs[i as int]), atoms)
            } else {
                Err(thrown(RuntimeErr::MissingArgument(name)))
            },
            other => Err(thrown_not_a("map key (symbol)"@, other, atoms)),
        }
    }
}

/// The frame that binds the parameters `binds` to the arguments `exprs`.
pub open spec fn new_with_binds_spec(
    outer: Option<nat>,
    binds: Seq<V>,
    exprs: Seq<V>,
    atoms: Seq<V>,
) -> Result<EnvModel, V> {
    match bind_spec(binds, exprs, 0, Map::empty(), atoms) {
        Ok(data) => Ok(EnvModel { data, outer }),
        Err(e) => Err(e),
    }
}

/// The model of an optional index.
pub open spec fn view_index(i: Option<usize>) -> Option<nat> {
    match i {
        Some(n) => Some(n as nat),
        None => None,
    }
}

impl Env {
    /// The index of the outer frame.
    pub fn outer(&self) -> (r: Option<usize>)
        ensures
            view_index(r) == self@.outer,
    {
        self.outer
    }

    /// A frame without bindings.
    pub fn new(outer: Option<usize>) -> (env: Self)
        ensures
            env@ == (EnvModel { data: Map::empty(), outer: view_index(outer) }),
    {
        Self { data: new_bindings(), outer }
    }

    /// A frame that binds the parameters `binds` to the arguments `exprs`.
    pub fn new_with_binds(
        outer: Option<usize>,
        binds: &Vec<Value>,
        exprs: &Vec<Value>,
        atoms: &Vec<Value>,
    ) -> (r: RuntimeResult<Self>)
        ensures
            match r {
                Ok(env) => new_with_binds_spec(
                    view_index(outer),
                    view_seq(binds@),
                    view_seq(exprs@),
                    view_seq(atoms@),
                ) == Ok::<EnvModel, V>(env@),
                Err(e) => new_with_binds_spec(
                    view_index(outer),
                    view_seq(binds@),
                    view_seq(exprs@),
                    view_seq(atoms@),
                ) == Err::<EnvModel, V>(e@),
            },
    {
        let mut env = Self { data: new_bindings(), outer };
        let mut i: usize = 0;
        while i < binds.len()
            invariant
                i <= binds.len(),
                env.outer == outer,
                bind_spec(
                    view_seq(binds@),
                    view_seq(exprs@),
                    i as nat,
                    bindings_of(env.data),
                    view_seq(atoms@),
                ) == bind_spec(
                    view_seq(binds@),
                    view_seq(exprs@),
                    0,
                    Map::empty(),
                    view_seq(atoms@),
                ),
            decreases binds.len() - i,
        {
            let is_rest = match &binds[i] {
                Value::Symbol(s) => str_eq(s.as_str(), "&"),
                _ => false,
            };
            if is_rest {
                if i + 1 >= binds.len() {
                    return Err(missing_argument("&"));
                }
                let key = match binds[i + 1].clone().try_into_env_map_key(atoms) {
                    Ok(k) => k,
                    Err(e) => {
                        return Err(e);
                    },
                };
                let mut rest: Vec<Value> = Vec::new();
                let mut j: usize = i;
                while j < exprs.len()
                    invariant
                        i <= j,
                        i < exprs.len() ==> j <= exprs.len(),
                        i < exprs.len() ==> view_seq(rest@) == view_seq(exprs@).subrange(
                            i as int,
                            j as int,
                        ),
                        i >= exprs.len() ==> rest@.len() == 0,
                    decreases exprs.len() - j,
                {
                    rest.push(exprs[j].clone());
                    j += 1;
                    assert(view_seq(rest@) =~= view_seq(exprs@).subrange(i as int, j as int));
                }
                assert(view_seq(rest@) =~= rest_from(view_seq(exprs@), i as int));
                env.set(key, Value::list(rest));
                return Ok(env);
            }
            let key = match binds[i].clone().try_into_env_map_key(atoms) {
                Ok(k) => k,
                Err(e) => {
                    return Err(e);
                },
            };
            if i < exprs.len() {
                env.set(key, exprs[i].clone());
            } else {
                return Err(RuntimeError::MissingArgument(key).into_value());
            }
            i += 1;
        }
        Ok(env)
    }

    /// Binds `key` to `value` in this frame, in the place of an earlier
    /// binding of `key`.
    pub fn set(&mut self, key: String, value: Value)
        ensures
            final(self)@ == (EnvModel {
                data: old(self)@.data.insert(key@, value@),
                outer: old(self)@.outer,
            }),
    {
        bind(&mut self.data, key, value);
    }

    /// The index of the nearest frame that binds `key`, going from the frame
    /// `env` outwards.
    pub fn find(envs: &Vec<Env>, env: usize, key: &str) -> (r: Option<usize>)
        ensures
            view_index(r) == find_spec(view_envs(envs@), env as nat, key@, envs.len() as nat),
            r matches Some(found) ==> found < envs.len() && envs[found as int]@.data.contains_key(
                key@,
            ),
    {
        let mut current: usize = env;
        let mut fuel: usize = envs.len();
        loop
            invariant
                fuel <= envs.len(),
                find_spec(view_envs(envs@), current as nat, key@, fuel as nat) == find_spec(
                    view_envs(envs@),
                    env as nat,
                    key@,
                    envs.len() as nat,
                ),
            decreases fuel,
        {
            if current >= envs.len() {
                return None;
            }
            if is_bound(&envs[current].data, key) {
                return Some(current);
            }
            match envs[current].outer {
                Some(outer) => {
                    if fuel == 0 {
                        return None;
                    }
                    current = outer;
                    fuel -= 1;
                },
                None => {
                    return None;
                },
            }
        }
    }

    /// The value of `key` in the nearest frame that binds it, going from the
    /// frame `env` outwards.
    pub fn get(envs: &Vec<Env>, env: usize, key: &str) -> (r: RuntimeResult<Value>)
        ensures
            crate::value::result_is(r, get_spec(view_envs(envs@), env as nat, key@)),
    {
        match Self::find(envs, env, key) {
            Some(found) => match lookup(&envs[found].data, key) {
                Some(v) => Ok(v.clone()),
                None => Err(RuntimeError::NotFound(String::from_str(key)).into_value()),
            },
            None => Err(RuntimeError::NotFound(String::from_str(key)).into_value()),
        }
    }
}

} // verus!
