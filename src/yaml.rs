//! Resolution of declarative scene descriptions.
//!
//! A scene names its materials and transforms and lets later definitions refer to earlier
//! ones: a material may extend another and override some of its fields, a transform may
//! inline other named transforms among its steps, and objects refer to both by name.
//! This module turns such definitions into complete values, reporting missing names and
//! reference cycles. It is generic over the scalar type `T` of the numeric fields, which
//! it only moves around.
use vstd::prelude::*;

verus! {

/// `serde_yaml::Error`, the reader's error, carried through as an opaque value.
#[verifier::external_type_specification]
#[verifier::external_body]
pub struct ExYamlError(serde_yaml::Error);

/// Represents some problem with a scene description.
#[derive(Debug)]
pub enum ErrParseYaml {
    /// When some definition refers back to itself through a chain of references.
    RecursiveDefinition,
    /// A transform refers to a transform name that is not defined.
    KeyNotExists(String),
    /// A step that cannot be turned into a value directly (an unresolved reference).
    Unsupported,
    /// An unknown transformation name, or an object refers to an unknown transform.
    UnknownTransformation(String),
    /// A material refers to a material name that is not defined.
    UnknownMaterial(String),
    /// The text could not be read as a scene description at all.
    SerdeError(serde_yaml::Error),
}

/// What an `ErrParseYaml` says, with its names as character sequences.
pub enum ParseFault {
    RecursiveDefinition,
    KeyNotExists(Seq<char>),
    Unsupported,
    UnknownTransformation(Seq<char>),
    UnknownMaterial(Seq<char>),
    Syntax,
}

impl View for ErrParseYaml {
    type V = ParseFault;

    open spec fn view(&self) -> ParseFault {
        match self {
            ErrParseYaml::RecursiveDefinition => ParseFault::RecursiveDefinition,
            ErrParseYaml::KeyNotExists(k) => ParseFault::KeyNotExists(k@),
            ErrParseYaml::Unsupported => ParseFault::Unsupported,
            ErrParseYaml::UnknownTransformation(t) => ParseFault::UnknownTransformation(t@),
            ErrParseYaml::UnknownMaterial(m) => ParseFault::UnknownMaterial(m@),
            ErrParseYaml::SerdeError(_) => ParseFault::Syntax,
        }
    }
}

/// The message that describes a fault; for `Syntax`, only its start, since the rest is
/// the reader's own description.
pub open spec fn message_of(f: ParseFault) -> Seq<char> {
    match f {
        ParseFault::RecursiveDefinition => "Recursive definition in yaml"@,
        ParseFault::KeyNotExists(k) => "Key does not exist; key="@ + k,
        ParseFault::Unsupported => "An unsupported operation"@,
        ParseFault::UnknownTransformation(t) => "Unknown transformation; tr="@ + t,
        ParseFault::UnknownMaterial(m) => "Unknown material; mat="@ + m,
        ParseFault::Syntax => "Serde error; err="@,
    }
}

/// Relies on the `Display` impl of `serde_yaml::Error`: a description of the error.
#[verifier::external_body]
fn yaml_error_text(e: &serde_yaml::Error) -> String {
    format!("{}", e)
}

impl ErrParseYaml {
    /// A description of this error for people.
    pub fn message(&self) -> (r: String)
        ensures
            self is SerdeError ==> message_of(self@).is_prefix_of(r@),
            !(self is SerdeError) ==> r@ == message_of(self@),
    {
        let mut out = String::new();
        match self {
            ErrParseYaml::RecursiveDefinition => out.append("Recursive definition in yaml"),
            ErrParseYaml::KeyNotExists(k) => {
                out.append("Key does not exist; key=");
                out.append(k.as_str());
            },
            ErrParseYaml::Unsupported => out.append("An unsupported operation"),
            ErrParseYaml::UnknownTransformation(t) => {
                out.append("Unknown transformation; tr=");
                out.append(t.as_str());
            },
            ErrParseYaml::UnknownMaterial(m) => {
                out.append("Unknown material; mat=");
                out.append(m.as_str());
            },
            ErrParseYaml::SerdeError(e) => {
                out.append("Serde error; err=");
                let text = yaml_error_text(e);
                out.append(text.as_str());
                assert(message_of(self@).is_prefix_of(out@)) by {
                    assert(out@.subrange(0, message_of(self@).len() as int) =~= message_of(
                        self@,
                    ));
                }
            },
        }
        assert(!(self is SerdeError) ==> out@ =~= message_of(self@));
        out
    }
}

/// Whether the executable outcome `r` is the abstract outcome `s`.
pub open spec fn same_outcome<V>(r: Result<V, ErrParseYaml>, s: Result<V, ParseFault>) -> bool {
    match r {
        Ok(v) => s == Ok::<V, ParseFault>(v),
        Err(e) => s == Err::<V, ParseFault>(e@),
    }
}

/// The index of the first definition named `name`, if there is one.
pub open spec fn position_of<V>(defs: Seq<(String, V)>, name: Seq<char>) -> Option<int> {
    if exists|i: int| 0 <= i < defs.len() && (#[trigger] defs[i]).0@ == name {
        Some(
            choose|i: int|
                0 <= i < defs.len() && (#[trigger] defs[i]).0@ == name && forall|j: int|
                    0 <= j < i ==> (#[trigger] defs[j]).0@ != name,
        )
    } else {
        None
    }
}

/// `position_of` gives the first definition of a name, and `None` only for a name that is
/// not defined.
pub proof fn lemma_position_of<V>(defs: Seq<(String, V)>, name: Seq<char>)
    ensures
        match position_of(defs, name) {
            Some(i) => 0 <= i < defs.len() && defs[i].0@ == name && forall|j: int|
                0 <= j < i ==> (#[trigger] defs[j]).0@ != name,
            None => forall|j: int| 0 <= j < defs.len() ==> (#[trigger] defs[j]).0@ != name,
        },
{
    if exists|i: int| 0 <= i < defs.len() && (#[trigger] defs[i]).0@ == name {
        let i = choose|i: int| 0 <= i < defs.len() && (#[trigger] defs[i]).0@ == name;
        lemma_first_definition(defs, name, i);
    }
}

proof fn lemma_first_definition<V>(defs: Seq<(String, V)>, name: Seq<char>, i: int)
    requires
        0 <= i < defs.len(),
        defs[i].0@ == name,
    ensures
        exists|k: int|
            0 <= k < defs.len() && (#[trigger] defs[k]).0@ == name && forall|j: int|
                0 <= j < k ==> (#[trigger] defs[j]).0@ != name,
    decreases i,
{
    if exists|j: int| 0 <= j < i && (#[trigger] defs[j]).0@ == name {
        let j = choose|j: int| 0 <= j < i && (#[trigger] defs[j]).0@ == name;
        lemma_first_definition(defs, name, j);
    } else {
        assert(forall|j: int| 0 <= j < i ==> (#[trigger] defs[j]).0@ != name);
    }
}

/// Finds the first definition named `name`.
pub fn find_definition<V>(defs: &Vec<(String, V)>, name: &String) -> (r: Option<usize>)
    ensures
        match r {
            Some(i) => position_of(defs@, name@) == Some(i as int) && i < defs@.len(),
            None => position_of(defs@, name@) is None,
        },
{
    let mut i: usize = 0;
    while i < defs.len()
        invariant
            i <= defs@.len(),
            forall|j: int| 0 <= j < i ==> (#[trigger] defs@[j]).0@ != name@,
        decreases defs@.len() - i,
    {
        if defs[i].0 == *name {
            proof {
                let k = choose|k: int|
                    0 <= k < defs@.len() && (#[trigger] defs@[k]).0@ == name@ && forall|j: int|
                        0 <= j < k ==> (#[trigger] defs@[j]).0@ != name@;
                assert(defs@[i as int].0@ == name@);
                if k < i {
                    assert(defs@[k].0@ != name@);
                } else if k > i {
                    assert(defs@[i as int].0@ != name@);
                }
            }
            return Some(i);
        }
        i = i + 1;
    }
    None
}

/// The numeric fields of a complete material.
#[derive(Debug, PartialEq)]
pub struct MaterialValues<T> {
    pub color: (T, T, T),
    pub diffuse: T,
    pub ambient: T,
    pub specular: T,
    pub shininess: T,
    pub reflective: T,
    pub refractive_index: T,
    pub transparency: T,
}

/// Fields that a material definition sets over the material it extends.
#[derive(Debug, PartialEq)]
pub struct MaterialOverrides<T> {
    pub color: Option<(T, T, T)>,
    pub diffuse: Option<T>,
    pub ambient: Option<T>,
    pub specular: Option<T>,
    pub shininess: Option<T>,
    pub reflective: Option<T>,
    pub refractive_index: Option<T>,
    pub transparency: Option<T>,
}

/// The value that an optional override gives over `base`.
pub open spec fn or_base<A>(o: Option<A>, base: A) -> A {
    match o {
        Some(v) => v,
        None => base,
    }
}

fn pick<A: Copy>(o: &Option<A>, base: &A) -> (r: A)
    ensures
        r == or_base(*o, *base),
{
    match o {
        Some(v) => *v,
        None => *base,
    }
}

fn copy_triple<A: Copy>(c: &(A, A, A)) -> (r: (A, A, A))
    ensures
        r == *c,
{
    (c.0, c.1, c.2)
}

fn pick_triple<A: Copy>(o: &Option<(A, A, A)>, base: &(A, A, A)) -> (r: (A, A, A))
    ensures
        r == or_base(*o, *base),
{
    match o {
        Some(v) => copy_triple(v),
        None => copy_triple(base),
    }
}

impl<T: Copy> MaterialValues<T> {
    /// A copy of these values.
    pub fn copied(&self) -> (r: MaterialValues<T>)
        ensures
            r == *self,
    {
        MaterialValues {
            color: copy_triple(&self.color),
            diffuse: self.diffuse,
            ambient: self.ambient,
            specular: self.specular,
            shininess: self.shininess,
            reflective: self.reflective,
            refractive_index: self.refractive_index,
            transparency: self.transparency,
        }
    }
}

impl<T> MaterialOverrides<T> {
    /// `base` with every field that these overrides set replaced.
    pub open spec fn spec_apply(self, base: MaterialValues<T>) -> MaterialValues<T> {
        MaterialValues {
            color: or_base(self.color, base.color),
            diffuse: or_base(self.diffuse, base.diffuse),
            ambient: or_base(self.ambient, base.ambient),
            specular: or_base(self.specular, base.specular),
            shininess: or_base(self.shininess, base.shininess),
            reflective: or_base(self.reflective, base.reflective),
            refractive_index: or_base(self.refractive_index, base.refractive_index),
            transparency: or_base(self.transparency, base.transparency),
        }
    }
}

impl<T: Copy> MaterialOverrides<T> {
    /// Applies these overrides to `base`.
    pub fn apply(&self, base: &MaterialValues<T>) -> (r: MaterialValues<T>)
        ensures
            r == self.spec_apply(*base),
    {
        MaterialValues {
            color: pick_triple(&self.color, &base.color),
            diffuse: pick(&self.diffuse, &base.diffuse),
            ambient: pick(&self.ambient, &base.ambient),
            specular: pick(&self.specular, &base.specular),
            shininess: pick(&self.shininess, &base.shininess),
            reflective: pick(&self.reflective, &base.reflective),
            refractive_index: pick(&self.refractive_index, &base.refractive_index),
            transparency: pick(&self.transparency, &base.transparency),
        }
    }
}

/// A named material as a scene states it.
#[derive(Debug, PartialEq)]
pub enum MaterialRepr<T> {
    /// Every field given.
    Complete(MaterialValues<T>),
    /// The material named `extends`, with some fields replaced.
    Extends { extends: String, overrides: MaterialOverrides<T> },
}

/// The material that `name` stands for, following at most `fuel` references. Running out
/// of fuel means the chain of `extends` went round in a circle (see `material_of`).
pub open spec fn resolve_material<T>(
    defs: Seq<(String, MaterialRepr<T>)>,
    name: Seq<char>,
    fuel: nat,
) -> Result<MaterialValues<T>, ParseFault>
    decreases fuel,
{
    if fuel == 0 {
        Err(ParseFault::RecursiveDefinition)
    } else {
        match position_of(defs, name) {
            None => Err(ParseFault::UnknownMaterial(name)),
            Some(i) => match defs[i].1 {
                MaterialRepr::Complete(v) => Ok(v),
                MaterialRepr::Extends { extends, overrides } => match resolve_material(
                    defs,
                    extends@,
                    (fuel - 1) as nat,
                ) {
                    Ok(base) => Ok(overrides.spec_apply(base)),
                    Err(e) => Err(e),
                },
            },
        }
    }
}

/// The material that `name` stands for. A chain of `extends` that visits no name twice
/// ends within one step more than there are definitions, so a chain that has not ended by
/// then has gone round in a circle.
pub open spec fn material_of<T>(defs: Seq<(String, MaterialRepr<T>)>, name: Seq<char>) -> Result<
    MaterialValues<T>,
    ParseFault,
> {
    resolve_material(defs, name, defs.len() + 1)
}

fn resolve_material_exec<T: Copy>(
    defs: &Vec<(String, MaterialRepr<T>)>,
    name: &String,
    fuel: usize,
) -> (r: Result<MaterialValues<T>, ErrParseYaml>)
    ensures
        same_outcome(r, resolve_material(defs@, name@, fuel as nat)),
    decreases fuel,
{
    if fuel == 0 {
        return Err(ErrParseYaml::RecursiveDefinition);
    }
    match find_definition(defs, name) {
        None => Err(ErrParseYaml::UnknownMaterial(name.clone())),
        Some(i) => match &defs[i].1 {
            MaterialRepr::Complete(v) => Ok(v.copied()),
            MaterialRepr::Extends { extends, overrides } => {
                match resolve_material_exec(defs, extends, fuel - 1) {
                    Ok(base) => Ok(overrides.apply(&base)),
                    Err(e) => Err(e),
                }
            },
        },
    }
}

/// The name that the definition of `name` extends, when `name` is defined by extending.
pub open spec fn extended<T>(defs: Seq<(String, MaterialRepr<T>)>, name: Seq<char>) -> Option<
    Seq<char>,
> {
    match position_of(defs, name) {
        Some(i) => match defs[i].1 {
            MaterialRepr::Extends { extends, .. } => Some(extends@),
            MaterialRepr::Complete(_) => None,
        },
        None => None,
    }
}

/// The name reached from `name` after following `k` links of `extends` (staying put where
/// there is no link to follow).
pub open spec fn walk<T>(defs: Seq<(String, MaterialRepr<T>)>, name: Seq<char>, k: nat) -> Seq<
    char,
>
    decreases k,
{
    if k == 0 {
        name
    } else {
        match extended(defs, name) {
            Some(p) => walk(defs, p, (k - 1) as nat),
            None => name,
        }
    }
}

proof fn lemma_walk_split<T>(defs: Seq<(String, MaterialRepr<T>)>, name: Seq<char>, a: nat, t: nat)
    ensures
        walk(defs, name, a + t) == walk(defs, walk(defs, name, a), t),
    decreases a,
{
    if a > 0 {
        match extended(defs, name) {
            Some(p) => {
                lemma_walk_split(defs, p, (a - 1) as nat, t);
                assert((a + t - 1) as nat == ((a - 1) as nat + t) as nat);
            },
            None => {
                if t > 0 {
                    assert(walk(defs, name, t) == name);
                }
            },
        }
    }
}

/// Resolution runs out of fuel exactly when each of the first `fuel` names on the chain
/// extends another.
proof fn lemma_out_of_fuel<T>(defs: Seq<(String, MaterialRepr<T>)>, name: Seq<char>, fuel: nat)
    ensures
        (resolve_material(defs, name, fuel) == Err::<MaterialValues<T>, ParseFault>(
            ParseFault::RecursiveDefinition,
        )) <==> forall|j: nat| j < fuel ==> (extended(defs, #[trigger] walk(defs, name, j)) is Some),
    decreases fuel,
{
    if fuel > 0 {
        assert(walk(defs, name, 0) == name);
        match extended(defs, name) {
            Some(p) => {
                lemma_out_of_fuel(defs, p, (fuel - 1) as nat);
                assert forall|j: nat| j + 1 < fuel + 1 implies #[trigger] walk(defs, name, j + 1)
                    == walk(defs, p, j) by {}
                if forall|j: nat| j < (fuel - 1) as nat ==> (extended(
                    defs,
                    #[trigger] walk(defs, p, j),
                ) is Some) {
                    assert forall|j: nat| j < fuel implies (extended(
                        defs,
                        #[trigger] walk(defs, name, j),
                    ) is Some) by {
                        if j > 0 {
                            assert(walk(defs, name, ((j - 1) as nat + 1) as nat) == walk(
                                defs,
                                p,
                                (j - 1) as nat,
                            ));
                        }
                    }
                } else {
                    let j = choose|j: nat|
                        j < (fuel - 1) as nat && !(extended(
                            defs,
                            #[trigger] walk(defs, p, j),
                        ) is Some);
                    assert(walk(defs, name, j + 1) == walk(defs, p, j));
                }
            },
            None => {},
        }
    }
}

/// A resolution that did not run out of fuel gives the same with more.
proof fn lemma_more_fuel<T>(
    defs: Seq<(String, MaterialRepr<T>)>,
    name: Seq<char>,
    fuel: nat,
    more: nat,
)
    requires
        fuel <= more,
        resolve_material(defs, name, fuel) != Err::<MaterialValues<T>, ParseFault>(
            ParseFault::RecursiveDefinition,
        ),
    ensures
        resolve_material(defs, name, more) == resolve_material(defs, name, fuel),
    decreases fuel,
{
    match position_of(defs, name) {
        Some(i) => match defs[i].1 {
            MaterialRepr::Extends { extends, overrides } => {
                lemma_more_fuel(defs, extends@, (fuel - 1) as nat, (more - 1) as nat);
            },
            MaterialRepr::Complete(_) => {},
        },
        None => {},
    }
}

proof fn lemma_repeat(ps: Seq<int>, n: nat)
    requires
        ps.len() == n + 1,
        forall|i: int| 0 <= i < ps.len() ==> 0 <= #[trigger] ps[i] < n,
    ensures
        exists|a: int, b: int| 0 <= a < b < ps.len() && ps[a] == ps[b],
{
    if !(exists|a: int, b: int| 0 <= a < b < ps.len() && ps[a] == ps[b]) {
        assert(ps.no_duplicates()) by {
            assert forall|a: int, b: int|
                0 <= a < ps.len() && 0 <= b < ps.len() && a != b implies ps[a] != ps[b] by {
                if a > b {
                    assert(!(ps[b] == ps[a]));
                }
            }
        }
        ps.unique_seq_to_set();
        vstd::set_lib::lemma_int_range(0, n as int);
        assert(ps.to_set().subset_of(vstd::set_lib::set_int_range(0, n as int)));
        vstd::set_lib::lemma_len_subset(ps.to_set(), vstd::set_lib::set_int_range(0, n as int));
    }
}

/// Resolution does not depend on how deep references are followed once that is more than
/// there are definitions. So `material_of` fails with `RecursiveDefinition` exactly when
/// the chain of `extends` from `name` never ends: it comes back to a name it has passed.
pub proof fn lemma_material_bound_suffices<T>(
    defs: Seq<(String, MaterialRepr<T>)>,
    name: Seq<char>,
    fuel: nat,
)
    requires
        fuel >= defs.len() + 1,
    ensures
        resolve_material(defs, name, fuel) == material_of(defs, name),
{
    let n = defs.len();
    if material_of(defs, name) != Err::<MaterialValues<T>, ParseFault>(
        ParseFault::RecursiveDefinition,
    ) {
        lemma_more_fuel(defs, name, n + 1, fuel);
    } else {
        lemma_out_of_fuel(defs, name, n + 1);
        let ps = Seq::new(
            n + 1,
            |j: int| position_of(defs, walk(defs, name, j as nat)).unwrap(),
        );
        assert forall|i: int| 0 <= i < ps.len() implies 0 <= #[trigger] ps[i] < n by {
            lemma_position_of(defs, walk(defs, name, i as nat));
            assert(extended(defs, walk(defs, name, i as nat)) is Some);
        }
        lemma_repeat(ps, n);
        let (a, b) = choose|a: int, b: int| 0 <= a < b < ps.len() && ps[a] == ps[b];
        lemma_position_of(defs, walk(defs, name, a as nat));
        lemma_position_of(defs, walk(defs, name, b as nat));
        assert(extended(defs, walk(defs, name, a as nat)) is Some);
        assert(extended(defs, walk(defs, name, b as nat)) is Some);
        assert(walk(defs, name, a as nat) == walk(defs, name, b as nat));
        assert forall|j: nat| j < fuel implies (extended(
            defs,
            #[trigger] walk(defs, name, j),
        ) is Some) by {
            lemma_chain_goes_on(defs, name, a as nat, b as nat, j);
        }
        lemma_out_of_fuel(defs, name, fuel);
    }
}

proof fn lemma_chain_goes_on<T>(
    defs: Seq<(String, MaterialRepr<T>)>,
    name: Seq<char>,
    a: nat,
    b: nat,
    j: nat,
)
    requires
        a < b,
        walk(defs, name, a) == walk(defs, name, b),
        forall|i: nat| i < b ==> (extended(defs, #[trigger] walk(defs, name, i)) is Some),
    ensures
        extended(defs, walk(defs, name, j)) is Some,
    decreases j,
{
    if j >= b {
        let d = (b - a) as nat;
        let k = (j - d) as nat;
        lemma_walk_split(defs, name, b, (k - a) as nat);
        lemma_walk_split(defs, name, a, (k - a) as nat);
        assert(b + (k - a) == j);
        assert(a + (k - a) == k);
        lemma_chain_goes_on(defs, name, a, b, k);
    }
}

/// Completes the material named `key`: follows its chain of `extends` and applies the
/// overrides of each link, from the complete material at the end of the chain outwards.
/// Fails with `UnknownMaterial` naming the first name on the chain that is not defined,
/// and with `RecursiveDefinition` when the chain goes round in a circle.
pub fn complete_material<T: Copy>(key: &str, defs: &Vec<(String, MaterialRepr<T>)>) -> (r: Result<
    MaterialValues<T>,
    ErrParseYaml,
>)
    requires
        defs@.len() < usize::MAX,
    ensures
        same_outcome(r, material_of(defs@, key@)),
{
    let name = key.to_owned();
    resolve_material_exec(defs, &name, defs.len() + 1)
}

/// Completes every material definition, in order. Fails with the error of the first
/// definition that cannot be completed.
pub fn complete_materials<T: Copy>(defs: &Vec<(String, MaterialRepr<T>)>) -> (r: Result<
    Vec<(String, MaterialValues<T>)>,
    ErrParseYaml,
>)
    requires
        defs@.len() < usize::MAX,
    ensures
        match r {
            Ok(out) => out@.len() == defs@.len() && forall|i: int|
                0 <= i < defs@.len() ==> (#[trigger] out@[i]).0@ == defs@[i].0@ && material_of(
                    defs@,
                    defs@[i].0@,
                ) == Ok::<MaterialValues<T>, ParseFault>(out@[i].1),
            Err(e) => exists|k: int|
                0 <= k < defs@.len() && material_of(defs@, (#[trigger] defs@[k]).0@) == Err::<
                    MaterialValues<T>,
                    ParseFault,
                >(e@) && forall|j: int|
                    0 <= j < k ==> (material_of(defs@, (#[trigger] defs@[j]).0@) is Ok),
        },
{
    let mut out: Vec<(String, MaterialValues<T>)> = Vec::new();
    let mut i: usize = 0;
    while i < defs.len()
        invariant
            i <= defs@.len() < usize::MAX,
            out@.len() == i,
            forall|j: int|
                0 <= j < i ==> (#[trigger] out@[j]).0@ == defs@[j].0@ && material_of(
                    defs@,
                    defs@[j].0@,
                ) == Ok::<MaterialValues<T>, ParseFault>(out@[j].1),
        decreases defs@.len() - i,
    {
        let name = &defs[i].0;
        match resolve_material_exec(defs, name, defs.len() + 1) {
            Ok(m) => out.push((name.clone(), m)),
            Err(e) => {
                proof {
                    assert forall|j: int| 0 <= j < i implies (material_of(
                        defs@,
                        (#[trigger] defs@[j]).0@,
                    ) is Ok) by {
                        assert(out@[j].0@ == defs@[j].0@);
                    }
                }
                return Err(e);
            },
        }
        i = i + 1;
    }
    Ok(out)
}

/// One step of a named transform as a scene states it: a reference to another named
/// transform, or a transformation name with one, three or six parameters.
#[derive(Debug, PartialEq)]
pub enum TransformRepr<T> {
    /// References another transformation.
    Ref(String),
    /// Transformations involving one parameter, i.e. the three rotations.
    OneParam(String, T),
    /// Transformations involving three parameters, i.e. translation and scaling.
    ThreeParam(String, T, T, T),
    /// Transformations involving six parameters, i.e. shearing.
    SixParam(String, T, T, T, T, T, T),
}

impl<T: Copy> TransformRepr<T> {
    /// A copy of this step.
    pub fn copied(&self) -> (r: TransformRepr<T>)
        ensures
            r == *self,
    {
        match self {
            TransformRepr::Ref(n) => TransformRepr::Ref(n.clone()),
            TransformRepr::OneParam(n, a) => TransformRepr::OneParam(n.clone(), *a),
            TransformRepr::ThreeParam(n, a, b, c) => TransformRepr::ThreeParam(
                n.clone(),
                *a,
                *b,
                *c,
            ),
            TransformRepr::SixParam(n, a, b, c, d, e, f) => TransformRepr::SixParam(
                n.clone(),
                *a,
                *b,
                *c,
                *d,
                *e,
                *f,
            ),
        }
    }
}

/// The steps that the transform `name` stands for, with every reference replaced by the
/// steps of the transform it names, following references at most `fuel` deep.
pub open spec fn flatten_name<T>(
    defs: Seq<(String, Vec<TransformRepr<T>>)>,
    name: Seq<char>,
    fuel: nat,
) -> Result<Seq<TransformRepr<T>>, ParseFault>
    decreases fuel, 0nat,
{
    if fuel == 0 {
        Err(ParseFault::RecursiveDefinition)
    } else {
        match position_of(defs, name) {
            None => Err(ParseFault::KeyNotExists(name)),
            Some(i) => flatten_steps(defs, defs[i].1@, (fuel - 1) as nat),
        }
    }
}

/// `steps` with every reference replaced by the steps of the transform it names; the
/// first failure in order of the steps, if any.
pub open spec fn flatten_steps<T>(
    defs: Seq<(String, Vec<TransformRepr<T>>)>,
    steps: Seq<TransformRepr<T>>,
    fuel: nat,
) -> Result<Seq<TransformRepr<T>>, ParseFault>
    decreases fuel, steps.len(),
{
    if steps.len() == 0 {
        Ok(Seq::empty())
    } else {
        match flatten_steps(defs, steps.drop_last(), fuel) {
            Err(e) => Err(e),
            Ok(front) => match steps.last() {
                TransformRepr::Ref(r) => match flatten_name(defs, r@, fuel) {
                    Ok(inner) => Ok(front + inner),
                    Err(e) => Err(e),
                },
                step => Ok(front.push(step)),
            },
        }
    }
}

/// The steps that the transform `name` stands for. A chain of references that visits no
/// name twice is at most as deep as there are definitions, so a chain deeper than that
/// has gone round in a circle.
pub open spec fn flattened<T>(defs: Seq<(String, Vec<TransformRepr<T>>)>, name: Seq<char>) -> Result<
    Seq<TransformRepr<T>>,
    ParseFault,
> {
    flatten_name(defs, name, defs.len() + 1)
}

proof fn lemma_flatten_steps_fails_early<T>(
    defs: Seq<(String, Vec<TransformRepr<T>>)>,
    steps: Seq<TransformRepr<T>>,
    k: int,
    fuel: nat,
)
    requires
        0 <= k <= steps.len(),
        flatten_steps(defs, steps.take(k), fuel) is Err,
    ensures
        flatten_steps(defs, steps, fuel) == flatten_steps(defs, steps.take(k), fuel),
    decreases steps.len() - k,
{
    if k < steps.len() {
        let next = steps.take(k + 1);
        assert(next.drop_last() =~= steps.take(k));
        lemma_flatten_steps_fails_early(defs, steps, k + 1, fuel);
    } else {
        assert(steps.take(k) =~= steps);
    }
}

#[verifier::rlimit(30)]
fn flatten_exec<T: Copy>(
    defs: &Vec<(String, Vec<TransformRepr<T>>)>,
    name: &String,
    fuel: usize,
) -> (r: Result<Vec<TransformRepr<T>>, ErrParseYaml>)
    ensures
        match r {
            Ok(v) => flatten_name(defs@, name@, fuel as nat) == Ok::<
                Seq<TransformRepr<T>>,
                ParseFault,
            >(v@),
            Err(e) => flatten_name(defs@, name@, fuel as nat) == Err::<
                Seq<TransformRepr<T>>,
                ParseFault,
            >(e@),
        },
    decreases fuel,
{
    if fuel == 0 {
        return Err(ErrParseYaml::RecursiveDefinition);
    }
    let k = match find_definition(defs, name) {
        None => {
            return Err(ErrParseYaml::KeyNotExists(name.clone()));
        },
        Some(k) => k,
    };
    let steps = &defs[k].1;
    let ghost inner_fuel = (fuel - 1) as nat;
    let mut out: Vec<TransformRepr<T>> = Vec::new();
    let mut i: usize = 0;
    while i < steps.len()
        invariant
            0 < fuel,
            inner_fuel == fuel - 1,
            position_of(defs@, name@) == Some(k as int),
            k < defs@.len(),
            *steps == defs@[k as int].1,
            i <= steps@.len(),
            flatten_steps(defs@, steps@.take(i as int), inner_fuel) == Ok::<
                Seq<TransformRepr<T>>,
                ParseFault,
            >(out@),
        decreases steps@.len() - i,
    {
        assert(steps@.take(i + 1).drop_last() =~= steps@.take(i as int));
        assert(steps@.take(i + 1).last() == steps@[i as int]);
        match &steps[i] {
            TransformRepr::Ref(r) => match flatten_exec(defs, r, fuel - 1) {
                Ok(mut inner) => {
                    out.append(&mut inner);
                },
                Err(e) => {
                    proof {
                        lemma_flatten_steps_fails_early(defs@, steps@, i + 1, inner_fuel);
                    }
                    return Err(e);
                },
            },
            step => {
                out.push(step.copied());
            },
        }
        i = i + 1;
    }
    assert(steps@.take(i as int) =~= steps@);
    Ok(out)
}

/// Completes the transform named `key`: its steps, with every reference to another named
/// transform replaced, in place, by that transform's completed steps. Fails with
/// `KeyNotExists` naming the first reference (in order of the steps, depth first) to an
/// undefined name, and with `RecursiveDefinition` when references go round in a circle.
pub fn complete_transform<T: Copy>(
    key: &str,
    defs: &Vec<(String, Vec<TransformRepr<T>>)>,
) -> (r: Result<Vec<TransformRepr<T>>, ErrParseYaml>)
    requires
        defs@.len() < usize::MAX,
    ensures
        match r {
            Ok(v) => flattened(defs@, key@) == Ok::<Seq<TransformRepr<T>>, ParseFault>(v@),
            Err(e) => flattened(defs@, key@) == Err::<Seq<TransformRepr<T>>, ParseFault>(e@),
        },
{
    let name = key.to_owned();
    flatten_exec(defs, &name, defs.len() + 1)
}

/// A single transformation with its parameters.
#[derive(Debug, PartialEq)]
pub enum Step<T> {
    RotateX(T),
    RotateY(T),
    RotateZ(T),
    Translate(T, T, T),
    Scale(T, T, T),
    Shear(T, T, T, T, T, T),
}

/// The transformation that a stated step names, by its name and number of parameters.
pub open spec fn step_spec<T>(r: TransformRepr<T>) -> Result<Step<T>, ParseFault> {
    match r {
        TransformRepr::Ref(_) => Err(ParseFault::Unsupported),
        TransformRepr::OneParam(n, v) => if n@ == "rotate_x"@ {
            Ok(Step::RotateX(v))
        } else if n@ == "rotate_y"@ {
            Ok(Step::RotateY(v))
        } else if n@ == "rotate_z"@ {
            Ok(Step::RotateZ(v))
        } else {
            Err(ParseFault::UnknownTransformation(n@))
        },
        TransformRepr::ThreeParam(n, x, y, z) => if n@ == "translate"@ {
            Ok(Step::Translate(x, y, z))
        } else if n@ == "scale"@ {
            Ok(Step::Scale(x, y, z))
        } else {
            Err(ParseFault::UnknownTransformation(n@))
        },
        TransformRepr::SixParam(n, a, b, c, d, e, f) => if n@ == "shear"@ {
            Ok(Step::Shear(a, b, c, d, e, f))
        } else {
            Err(ParseFault::UnknownTransformation(n@))
        },
    }
}

fn is_named(name: &String, word: &str) -> (r: bool)
    ensures
        r == (name@ == word@),
{
    *name == word.to_owned()
}

/// Turns a stated step into the transformation it names. A reference is `Unsupported`
/// here (complete it first); an unknown name is an `UnknownTransformation`.
pub fn step_of<T: Copy>(r: &TransformRepr<T>) -> (s: Result<Step<T>, ErrParseYaml>)
    ensures
        same_outcome(s, step_spec(*r)),
{
    match r {
        TransformRepr::Ref(_) => Err(ErrParseYaml::Unsupported),
        TransformRepr::OneParam(n, v) => {
            if is_named(n, "rotate_x") {
                Ok(Step::RotateX(*v))
            } else if is_named(n, "rotate_y") {
                Ok(Step::RotateY(*v))
            } else if is_named(n, "rotate_z") {
                Ok(Step::RotateZ(*v))
            } else {
                Err(ErrParseYaml::UnknownTransformation(n.clone()))
            }
        },
        TransformRepr::ThreeParam(n, x, y, z) => {
            if is_named(n, "translate") {
                Ok(Step::Translate(*x, *y, *z))
            } else if is_named(n, "scale") {
                Ok(Step::Scale(*x, *y, *z))
            } else {
                Err(ErrParseYaml::UnknownTransformation(n.clone()))
            }
        },
        TransformRepr::SixParam(n, a, b, c, d, e, f) => {
            if is_named(n, "shear") {
                Ok(Step::Shear(*a, *b, *c, *d, *e, *f))
            } else {
                Err(ErrParseYaml::UnknownTransformation(n.clone()))
            }
        },
    }
}

/// The transformations that `reprs` name, or the failure of the first that names none.
pub open spec fn steps_spec<T>(reprs: Seq<TransformRepr<T>>) -> Result<Seq<Step<T>>, ParseFault>
    decreases reprs.len(),
{
    if reprs.len() == 0 {
        Ok(Seq::empty())
    } else {
        match steps_spec(reprs.drop_last()) {
            Err(e) => Err(e),
            Ok(front) => match step_spec(reprs.last()) {
                Ok(s) => Ok(front.push(s)),
                Err(e) => Err(e),
            },
        }
    }
}

proof fn lemma_steps_fail_early<T>(reprs: Seq<TransformRepr<T>>, k: int)
    requires
        0 <= k <= reprs.len(),
        steps_spec(reprs.take(k)) is Err,
    ensures
        steps_spec(reprs) == steps_spec(reprs.take(k)),
    decreases reprs.len() - k,
{
    if k < reprs.len() {
        assert(reprs.take(k + 1).drop_last() =~= reprs.take(k));
        lemma_steps_fail_early(reprs, k + 1);
    } else {
        assert(reprs.take(k) =~= reprs);
    }
}

/// Turns each stated step into the transformation it names, in order.
pub fn steps_of<T: Copy>(reprs: &Vec<TransformRepr<T>>) -> (r: Result<Vec<Step<T>>, ErrParseYaml>)
    ensures
        match r {
            Ok(v) => steps_spec(reprs@) == Ok::<Seq<Step<T>>, ParseFault>(v@),
            Err(e) => steps_spec(reprs@) == Err::<Seq<Step<T>>, ParseFault>(e@),
        },
{
    let mut out: Vec<Step<T>> = Vec::new();
    let mut i: usize = 0;
    while i < reprs.len()
        invariant
            i <= reprs@.len(),
            steps_spec(reprs@.take(i as int)) == Ok::<Seq<Step<T>>, ParseFault>(out@),
        decreases reprs@.len() - i,
    {
        assert(reprs@.take(i + 1).drop_last() =~= reprs@.take(i as int));
        match step_of(&reprs[i]) {
            Ok(s) => out.push(s),
            Err(e) => {
                proof {
                    lemma_steps_fail_early(reprs@, i + 1);
                }
                return Err(e);
            },
        }
        i = i + 1;
    }
    assert(reprs@.take(i as int) =~= reprs@);
    Ok(out)
}

/// The transformations that the transform `name` stands for, once completed.
pub open spec fn transform_of<T>(defs: Seq<(String, Vec<TransformRepr<T>>)>, name: Seq<char>) -> Result<
    Seq<Step<T>>,
    ParseFault,
> {
    match flattened(defs, name) {
        Ok(reprs) => steps_spec(reprs),
        Err(e) => Err(e),
    }
}

/// Completes every transform definition, in order, and turns each into its sequence of
/// transformations. Fails with the error of the first definition that cannot be completed.
pub fn complete_transforms<T: Copy>(defs: &Vec<(String, Vec<TransformRepr<T>>)>) -> (r: Result<
    Vec<(String, Vec<Step<T>>)>,
    ErrParseYaml,
>)
    requires
        defs@.len() < usize::MAX,
    ensures
        match r {
            Ok(out) => out@.len() == defs@.len() && forall|i: int|
                0 <= i < defs@.len() ==> (#[trigger] out@[i]).0@ == defs@[i].0@ && transform_of(
                    defs@,
                    defs@[i].0@,
                ) == Ok::<Seq<Step<T>>, ParseFault>(out@[i].1@),
            Err(e) => exists|k: int|
                0 <= k < defs@.len() && transform_of(defs@, (#[trigger] defs@[k]).0@) == Err::<
                    Seq<Step<T>>,
                    ParseFault,
                >(e@) && forall|j: int|
                    0 <= j < k ==> (transform_of(defs@, (#[trigger] defs@[j]).0@) is Ok),
        },
{
    let mut out: Vec<(String, Vec<Step<T>>)> = Vec::new();
    let mut i: usize = 0;
    while i < defs.len()
        invariant
            i <= defs@.len() < usize::MAX,
            out@.len() == i,
            forall|j: int|
                0 <= j < i ==> (#[trigger] out@[j]).0@ == defs@[j].0@ && transform_of(
                    defs@,
                    defs@[j].0@,
                ) == Ok::<Seq<Step<T>>, ParseFault>(out@[j].1@),
        decreases defs@.len() - i,
    {
        let name = &defs[i].0;
        let outcome = match flatten_exec(defs, name, defs.len() + 1) {
            Ok(reprs) => steps_of(&reprs),
            Err(e) => Err(e),
        };
        match outcome {
            Ok(steps) => out.push((name.clone(), steps)),
            Err(e) => {
                proof {
                    assert forall|j: int| 0 <= j < i implies (transform_of(
                        defs@,
                        (#[trigger] defs@[j]).0@,
                    ) is Ok) by {
                        assert(out@[j].0@ == defs@[j].0@);
                    }
                }
                return Err(e);
            },
        }
        i = i + 1;
    }
    Ok(out)
}

impl<T: Copy> Step<T> {
    /// A copy of this transformation.
    pub fn copied(&self) -> (r: Step<T>)
        ensures
            r == *self,
    {
        match self {
            Step::RotateX(a) => Step::RotateX(*a),
            Step::RotateY(a) => Step::RotateY(*a),
            Step::RotateZ(a) => Step::RotateZ(*a),
            Step::Translate(x, y, z) => Step::Translate(*x, *y, *z),
            Step::Scale(x, y, z) => Step::Scale(*x, *y, *z),
            Step::Shear(a, b, c, d, e, f) => Step::Shear(*a, *b, *c, *d, *e, *f),
        }
    }
}

fn copy_steps<T: Copy>(v: &Vec<Step<T>>) -> (r: Vec<Step<T>>)
    ensures
        r@ == v@,
{
    let mut out: Vec<Step<T>> = Vec::new();
    let mut i: usize = 0;
    while i < v.len()
        invariant
            i <= v@.len(),
            out@ == v@.take(i as int),
        decreases v@.len() - i,
    {
        out.push(v[i].copied());
        i = i + 1;
        assert(out@ =~= v@.take(i as int));
    }
    assert(v@.take(i as int) =~= v@);
    out
}

/// The kinds of objects which a scene can hold.
#[derive(Clone, Copy, Debug, PartialEq, Eq)]
pub enum ShapeKind {
    Sphere,
    Plane,
}

/// The material of an object as a scene states it.
#[derive(Debug, PartialEq)]
pub enum MaterialDefn<T> {
    /// References a named material.
    Ref(String),
    /// Does not reference any other material: the default material with some fields set.
    Defined(MaterialOverrides<T>),
}

/// An object as a scene states it.
#[derive(Debug, PartialEq)]
pub struct ObjectRepr<T> {
    pub typ: ShapeKind,
    pub material: MaterialDefn<T>,
    pub transform: Vec<TransformRepr<T>>,
}

/// An object with every reference resolved: its kind, its material, and the
/// transformations that place it, innermost first.
#[derive(Debug, PartialEq)]
pub struct ObjectPlan<T> {
    pub typ: ShapeKind,
    pub material: MaterialValues<T>,
    pub transform: Vec<Step<T>>,
}

/// The material that `d` stands for among the completed materials `mats`.
pub open spec fn material_for<T>(
    d: MaterialDefn<T>,
    mats: Seq<(String, MaterialValues<T>)>,
    default: MaterialValues<T>,
) -> Result<MaterialValues<T>, ParseFault> {
    match d {
        MaterialDefn::Ref(n) => match position_of(mats, n@) {
            Some(i) => Ok(mats[i].1),
            None => Err(ParseFault::UnknownMaterial(n@)),
        },
        MaterialDefn::Defined(o) => Ok(o.spec_apply(default)),
    }
}

/// The transformations that an object's stated steps stand for among the completed
/// transforms `trs`, or the failure of the first step that stands for none.
pub open spec fn object_steps<T>(
    reprs: Seq<TransformRepr<T>>,
    trs: Seq<(String, Vec<Step<T>>)>,
) -> Result<Seq<Step<T>>, ParseFault>
    decreases reprs.len(),
{
    if reprs.len() == 0 {
        Ok(Seq::empty())
    } else {
        match object_steps(reprs.drop_last(), trs) {
            Err(e) => Err(e),
            Ok(front) => match reprs.last() {
                TransformRepr::Ref(n) => match position_of(trs, n@) {
                    Some(i) => Ok(front + trs[i].1@),
                    None => Err(ParseFault::UnknownTransformation(n@)),
                },
                step => match step_spec(step) {
                    Ok(s) => Ok(front.push(s)),
                    Err(e) => Err(e),
                },
            },
        }
    }
}

/// The resolved object that `x` stands for: its material is resolved first, then its
/// transformations in order.
pub open spec fn plan_of<T>(
    x: ObjectRepr<T>,
    mats: Seq<(String, MaterialValues<T>)>,
    trs: Seq<(String, Vec<Step<T>>)>,
    default: MaterialValues<T>,
) -> Result<(ShapeKind, MaterialValues<T>, Seq<Step<T>>), ParseFault> {
    match material_for(x.material, mats, default) {
        Err(e) => Err(e),
        Ok(m) => match object_steps(x.transform@, trs) {
            Err(e) => Err(e),
            Ok(s) => Ok((x.typ, m, s)),
        },
    }
}

/// What `p` holds, as `plan_of` states it.
pub open spec fn plan_view<T>(p: ObjectPlan<T>) -> (ShapeKind, MaterialValues<T>, Seq<Step<T>>) {
    (p.typ, p.material, p.transform@)
}

proof fn lemma_object_steps_fail_early<T>(
    reprs: Seq<TransformRepr<T>>,
    trs: Seq<(String, Vec<Step<T>>)>,
    k: int,
)
    requires
        0 <= k <= reprs.len(),
        object_steps(reprs.take(k), trs) is Err,
    ensures
        object_steps(reprs, trs) == object_steps(reprs.take(k), trs),
    decreases reprs.len() - k,
{
    if k < reprs.len() {
        assert(reprs.take(k + 1).drop_last() =~= reprs.take(k));
        lemma_object_steps_fail_early(reprs, trs, k + 1);
    } else {
        assert(reprs.take(k) =~= reprs);
    }
}

fn object_steps_exec<T: Copy>(
    reprs: &Vec<TransformRepr<T>>,
    trs: &Vec<(String, Vec<Step<T>>)>,
) -> (r: Result<Vec<Step<T>>, ErrParseYaml>)
    ensures
        match r {
            Ok(v) => object_steps(reprs@, trs@) == Ok::<Seq<Step<T>>, ParseFault>(v@),
            Err(e) => object_steps(reprs@, trs@) == Err::<Seq<Step<T>>, ParseFault>(e@),
        },
{
    let mut out: Vec<Step<T>> = Vec::new();
    let mut i: usize = 0;
    while i < reprs.len()
        invariant
            i <= reprs@.len(),
            object_steps(reprs@.take(i as int), trs@) == Ok::<Seq<Step<T>>, ParseFault>(out@),
        decreases reprs@.len() - i,
    {
        assert(reprs@.take(i + 1).drop_last() =~= reprs@.take(i as int));
        match &reprs[i] {
            TransformRepr::Ref(n) => match find_definition(trs, n) {
                Some(k) => {
                    let mut more = copy_steps(&trs[k].1);
                    out.append(&mut more);
                },
                None => {
                    proof {
                        lemma_object_steps_fail_early(reprs@, trs@, i + 1);
                    }
                    return Err(ErrParseYaml::UnknownTransformation(n.clone()));
                },
            },
            step => match step_of(step) {
                Ok(s) => out.push(s),
                Err(e) => {
                    proof {
                        lemma_object_steps_fail_early(reprs@, trs@, i + 1);
                    }
                    return Err(e);
                },
            },
        }
        i = i + 1;
    }
    assert(reprs@.take(i as int) =~= reprs@);
    Ok(out)
}

/// Resolves each stated object against the completed materials `mats` and transforms
/// `trs`, in order. An object that states its material in place gets `default_material`
/// with the stated fields set. Fails with the error of the first object that cannot be
/// resolved: `UnknownMaterial` or `UnknownTransformation` for a name that is not among
/// the completed ones, or the error of a step that names no transformation.
pub fn generate_objects<T: Copy>(
    xs: &Vec<ObjectRepr<T>>,
    mats: &Vec<(String, MaterialValues<T>)>,
    trs: &Vec<(String, Vec<Step<T>>)>,
    default_material: &MaterialValues<T>,
) -> (r: Result<Vec<ObjectPlan<T>>, ErrParseYaml>)
    ensures
        match r {
            Ok(out) => out@.len() == xs@.len() && forall|i: int|
                0 <= i < xs@.len() ==> plan_of(#[trigger] xs@[i], mats@, trs@, *default_material)
                    == Ok::<(ShapeKind, MaterialValues<T>, Seq<Step<T>>), ParseFault>(
                    plan_view(out@[i]),
                ),
            Err(e) => exists|k: int|
                0 <= k < xs@.len() && plan_of(#[trigger] xs@[k], mats@, trs@, *default_material)
                    == Err::<(ShapeKind, MaterialValues<T>, Seq<Step<T>>), ParseFault>(e@)
                    && forall|j: int|
                    0 <= j < k ==> (plan_of(#[trigger] xs@[j], mats@, trs@, *default_material) is Ok),
        },
{
    let mut out: Vec<ObjectPlan<T>> = Vec::new();
    let mut i: usize = 0;
    while i < xs.len()
        invariant
            i <= xs@.len(),
            out@.len() == i,
            forall|j: int|
                0 <= j < i ==> plan_of(#[trigger] xs@[j], mats@, trs@, *default_material) == Ok::<
                    (ShapeKind, MaterialValues<T>, Seq<Step<T>>),
                    ParseFault,
                >(plan_view(out@[j])),
        decreases xs@.len() - i,
    {
        let x = &xs[i];
        let material = match &x.material {
            MaterialDefn::Ref(name) => match find_definition(mats, name) {
                Some(k) => mats[k].1.copied(),
                None => {
                    return Err(ErrParseYaml::UnknownMaterial(name.clone()));
                },
            },
            MaterialDefn::Defined(o) => o.apply(default_material),
        };
        let transform = match object_steps_exec(&x.transform, trs) {
            Ok(steps) => steps,
            Err(e) => {
                return Err(e);
            },
        };
        out.push(ObjectPlan { typ: x.typ, material, transform });
        i = i + 1;
    }
    Ok(out)
}

} // verus!
