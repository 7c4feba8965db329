//! Migration sources and their resolution into ordered migration units.
//!
//! A fixture declares an ordered list of source paths and, optionally, a raw
//! SQL script to apply after all of them. Each path names either a directory
//! of versioned migrations (a migration set) or a single SQL file (a raw
//! script). Reading the file system is left to the caller, which reports for
//! each path what it found there; resolution then decides the units, in the
//! declared order.
use vstd::prelude::*;
use crate::attributes::{CiterneAttributes, strings_view, opt_string_view};

verus! {

/// The declared sources of a fixture. At least one source path is present.
#[derive(Debug)]
pub struct FixtureSpec {
    pub sources: Vec<String>,
    pub sql: Option<String>,
}

#[derive(Debug)]
pub enum SpecError {
    /// No migration source was declared.
    NoMigrationSource,
}

/// What the caller found at one declared path.
#[derive(Debug)]
pub enum Loaded {
    /// A directory of migrations: the names of its steps, in version order.
    Directory(Vec<String>),
    /// A file, with its contents.
    File(String),
    /// Neither a directory nor a file.
    Missing,
}

/// A unit of migration work.
#[derive(Debug)]
pub enum Unit {
    /// A migration set: its path and the names of its steps, in version order.
    MigrationSet { path: String, steps: Vec<String> },
    /// A raw SQL script applied as one batch: its name and its text.
    RawScript { name: String, sql: String },
}

#[derive(Debug)]
pub enum ResolveError {
    /// The source at `index` names neither a directory nor a file.
    InvalidSource { index: usize, path: String },
}

pub enum LoadedModel {
    Directory(Seq<Seq<char>>),
    File(Seq<char>),
    Missing,
}

pub enum UnitModel {
    MigrationSet { path: Seq<char>, steps: Seq<Seq<char>> },
    RawScript { name: Seq<char>, sql: Seq<char> },
}

pub enum ResolveErrorModel {
    InvalidSource { index: int, path: Seq<char> },
}

impl View for Loaded {
    type V = LoadedModel;

    open spec fn view(&self) -> LoadedModel {
        match self {
            Loaded::Directory(steps) => LoadedModel::Directory(strings_view(steps@)),
            Loaded::File(text) => LoadedModel::File(text@),
            Loaded::Missing => LoadedModel::Missing,
        }
    }
}

impl View for Unit {
    type V = UnitModel;

    open spec fn view(&self) -> UnitModel {
        match self {
            Unit::MigrationSet { path, steps } => UnitModel::MigrationSet {
                path: path@,
                steps: strings_view(steps@),
            },
            Unit::RawScript { name, sql } => UnitModel::RawScript { name: name@, sql: sql@ },
        }
    }
}

impl View for ResolveError {
    type V = ResolveErrorModel;

    open spec fn view(&self) -> ResolveErrorModel {
        match self {
            ResolveError::InvalidSource { index, path } => ResolveErrorModel::InvalidSource {
                index: *index as int,
                path: path@,
            },
        }
    }
}

impl FixtureSpec {
    pub open spec fn wf(&self) -> bool {
        self.sources.len() > 0
    }

    /// A fixture with the given sources and trailing script; empty sources are
    /// refused.
    pub fn new(sources: Vec<String>, sql: Option<String>) -> (r: Result<FixtureSpec, SpecError>)
        ensures
            sources.len() == 0 <==> r is Err,
            r matches Ok(spec) ==> spec.wf() && spec.sources == sources && spec.sql == sql,
    {
        if sources.len() == 0 {
            Err(SpecError::NoMigrationSource)
        } else {
            Ok(FixtureSpec { sources, sql })
        }
    }

    /// The fixture that a parsed attribute declares.
    pub fn from_attributes(attributes: CiterneAttributes) -> (r: Result<FixtureSpec, SpecError>)
        ensures
            attributes.migrations.len() == 0 <==> r is Err,
            r matches Ok(spec) ==> spec.wf() && strings_view(spec.sources@)
                == attributes@.migrations && opt_string_view(spec.sql) == attributes@.sql,
    {
        FixtureSpec::new(attributes.migrations, attributes.sql)
    }
}

/// The name under which the trailing script is reported.
pub open spec fn trailing_name() -> Seq<char> {
    "sql"@
}

pub open spec fn unit_of(path: Seq<char>, l: LoadedModel) -> UnitModel {
    match l {
        LoadedModel::Directory(steps) => UnitModel::MigrationSet { path, steps },
        LoadedModel::File(text) => UnitModel::RawScript { name: path, sql: text },
        LoadedModel::Missing => UnitModel::RawScript { name: path, sql: seq![] },
    }
}

pub open spec fn trailing_units(sql: Option<Seq<char>>) -> Seq<UnitModel> {
    match sql {
        Some(text) => seq![UnitModel::RawScript { name: trailing_name(), sql: text }],
        None => seq![],
    }
}

pub open spec fn is_first_missing(loaded: Seq<LoadedModel>, i: int) -> bool {
    &&& 0 <= i < loaded.len()
    &&& loaded[i] is Missing
    &&& forall|j: int| 0 <= j < i ==> !(#[trigger] loaded[j] is Missing)
}

/// The units of a fixture: one for each declared source, in the declared
/// order, then the trailing script if there is one; or the first source that
/// names nothing.
pub open spec fn resolve_spec(
    sources: Seq<Seq<char>>,
    sql: Option<Seq<char>>,
    loaded: Seq<LoadedModel>,
) -> Result<Seq<UnitModel>, ResolveErrorModel> {
    if exists|i: int| is_first_missing(loaded, i) {
        let i = choose|i: int| is_first_missing(loaded, i);
        Err(ResolveErrorModel::InvalidSource { index: i, path: sources[i] })
    } else {
        Ok(
            Seq::new(loaded.len(), |i: int| unit_of(sources[i], loaded[i])) + trailing_units(
                sql,
            ),
        )
    }
}

pub open spec fn units_view(units: Seq<Unit>) -> Seq<UnitModel> {
    units.map_values(|u: Unit| u@)
}

pub open spec fn loaded_view(loaded: Seq<Loaded>) -> Seq<LoadedModel> {
    loaded.map_values(|l: Loaded| l@)
}

pub open spec fn resolve_result_view(r: Result<Vec<Unit>, ResolveError>) -> Result<
    Seq<UnitModel>,
    ResolveErrorModel,
> {
    match r {
        Ok(units) => Ok(units_view(units@)),
        Err(e) => Err(e@),
    }
}

fn copy_strings(v: &Vec<String>) -> (r: Vec<String>)
    ensures
        r@ == v@,
{
    let mut r: Vec<String> = Vec::new();
    let mut i: usize = 0;
    while i < v.len()
        invariant
            i <= v.len(),
            r@ == v@.take(i as int),
        decreases v.len() - i,
    {
        r.push(v[i].clone());
        i = i + 1;
        assert(r@ =~= v@.take(i as int));
    }
    assert(v@.take(i as int) =~= v@);
    r
}

/// Resolves the declared sources of `spec` into units, given what was found
/// at each of its paths (`loaded[i]` for `spec.sources[i]`).
pub fn resolve(spec: &FixtureSpec, loaded: &Vec<Loaded>) -> (r: Result<Vec<Unit>, ResolveError>)
    requires
        loaded.len() == spec.sources.len(),
    ensures
        resolve_result_view(r) == resolve_spec(
            strings_view(spec.sources@),
            opt_string_view(spec.sql),
            loaded_view(loaded@),
        ),
{
    let ghost sources = strings_view(spec.sources@);
    let ghost lv = loaded_view(loaded@);
    let mut units: Vec<Unit> = Vec::new();
    let mut i: usize = 0;
    while i < loaded.len()
        invariant
            i <= loaded.len(),
            loaded.len() == spec.sources.len(),
            sources == strings_view(spec.sources@),
            lv == loaded_view(loaded@),
            forall|j: int| 0 <= j < i ==> !(#[trigger] lv[j] is Missing),
            units_view(units@) =~= Seq::new(i as nat, |j: int| unit_of(sources[j], lv[j])),
        decreases loaded.len() - i,
    {
        let path = spec.sources[i].clone();
        let unit = match &loaded[i] {
            Loaded::Directory(steps) => Unit::MigrationSet { path, steps: copy_strings(steps) },
            Loaded::File(text) => Unit::RawScript { name: path, sql: text.clone() },
            Loaded::Missing => {
                proof {
                    assert(is_first_missing(lv, i as int));
                    let k = choose|k: int| is_first_missing(lv, k);
                    assert(k == i as int) by {
                        if k < i as int {
                            assert(!(lv[k] is Missing));
                        } else if k > i as int {
                            assert(!(lv[i as int] is Missing));
                        }
                    }
                }
                return Err(ResolveError::InvalidSource { index: i, path });
            },
        };
        let ghost before = units_view(units@);
        units.push(unit);
        assert(units_view(units@) =~= before.push(unit@));
        i = i + 1;
    }
    let ghost body = units_view(units@);
    match &spec.sql {
        Some(text) => {
            let name = "sql".to_string();
            units.push(Unit::RawScript { name, sql: text.clone() });
        },
        None => {},
    }
    assert(units_view(units@) =~= body + trailing_units(opt_string_view(spec.sql)));
    assert(!exists|k: int| is_first_missing(lv, k));
    Ok(units)
}

/// A trailing SQL script resolves to the same work as the same text declared
/// as a script file after the other sources: both resolutions succeed or fail
/// alike, give the same units up to the last, and end in a raw script with the
/// same text.
pub proof fn law_trailing_script_as_file(
    sources: Seq<Seq<char>>,
    loaded: Seq<LoadedModel>,
    path: Seq<char>,
    text: Seq<char>,
)
    requires
        sources.len() == loaded.len(),
    ensures
        ({
            let a = resolve_spec(sources, Some(text), loaded);
            let b = resolve_spec(sources.push(path), None, loaded.push(LoadedModel::File(text)));
            &&& a is Ok <==> b is Ok
            &&& a is Err ==> a == b
            &&& a is Ok ==> {
                let ua = a->Ok_0;
                let ub = b->Ok_0;
                &&& ua.len() == ub.len()
                &&& ua.len() == sources.len() + 1
                &&& ua.drop_last() == ub.drop_last()
                &&& ua.last() is RawScript && ub.last() is RawScript
                &&& ua.last()->RawScript_sql == text
                &&& ub.last()->RawScript_sql == text
            }
        }),
{
    let lb = loaded.push(LoadedModel::File(text));
    let sb = sources.push(path);
    assert forall|i: int| is_first_missing(loaded, i) <==> is_first_missing(lb, i) by {
        if is_first_missing(lb, i) {
            assert(i < loaded.len());
            assert forall|j: int| 0 <= j < i implies !(#[trigger] loaded[j] is Missing) by {
                assert(lb[j] == loaded[j]);
            }
        }
        if is_first_missing(loaded, i) {
            assert forall|j: int| 0 <= j < i implies !(#[trigger] lb[j] is Missing) by {
                assert(lb[j] == loaded[j]);
            }
        }
    }
    if exists|i: int| is_first_missing(loaded, i) {
        let i = choose|i: int| is_first_missing(loaded, i);
        assert(is_first_missing(lb, i));
        let k = choose|k: int| is_first_missing(lb, k);
        assert(is_first_missing(loaded, k));
        assert(k == i) by {
            if k < i {
                assert(!(loaded[k] is Missing));
            } else if k > i {
                assert(!(lb[i] is Missing));
            }
        }
        assert(sb[i] == sources[i]);
    } else {
        let ua = Seq::new(loaded.len(), |i: int| unit_of(sources[i], loaded[i])) + trailing_units(
            Some(text),
        );
        let ub = Seq::new(lb.len(), |i: int| unit_of(sb[i], lb[i])) + trailing_units(None);
        assert(ua.drop_last() =~= ub.drop_last());
    }
}

} // verus!
