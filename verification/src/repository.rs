//! Loading a context repository: the checks made on what its directory holds
//! and on the definitions read from it.

use vstd::prelude::*;
use crate::text::{any_equals, join2, join3, string_views};
use crate::contract::{
    ContractError, ContractMetadata, ContextStructure, DomainConfig, ValidationError,
    ValidationErrorType, ValidationResult, required_dir_names, required_file_names,
    required_world_model_file_names,
};
use crate::models::persona::{PersonaDefinition, PersonaFidelityTest, persona_errors};
use crate::models::scenario::{ScenarioDefinition, scenario_errors};
use crate::models::world_model::{WorldModel, world_model_errors};

verus! {

/// A fully loaded and validated Context Repository; `root_path` is the
/// directory it was read from.
#[derive(Debug, Clone)]
pub struct LoadedContext {
    pub root_path: String,
    pub contract: ContractMetadata,
    pub config: DomainConfig,
    pub personas: Vec<PersonaDefinition>,
    pub world_model: WorldModel,
    pub scenarios: Vec<ScenarioDefinition>,
    pub fidelity_tests: Vec<PersonaFidelityTest>,
}

/// What reading and deserializing one JSON file gave: success, a read
/// failure or a parse failure, each failure with its message.
#[derive(Debug, Clone)]
pub enum FileCheck {
    Parsed,
    Unreadable(String),
    Invalid(String),
}

/// What the filesystem holds of a context repository: whether its root
/// exists (and how it displays), which of the required paths exist (named
/// relative to the root, such as `world-model/rules.json`), what reading
/// `contract.json` and `config.json` gave, and how many JSON files the
/// personas directory lists (None when it cannot be listed).
#[derive(Debug, Clone)]
pub struct RepositoryProbe {
    pub root_display: String,
    pub root_exists: bool,
    pub present: Vec<String>,
    pub contract_file: FileCheck,
    pub config_file: FileCheck,
    pub persona_json_files: Option<usize>,
}

/// A validation error as plain values: file, field, type, message,
/// suggestion.
pub type ErrorView = (Seq<char>, Option<Seq<char>>, ValidationErrorType, Seq<char>, Option<Seq<char>>);

/// The view of an optional string.
pub open spec fn opt_view(o: Option<String>) -> Option<Seq<char>> {
    match o {
        Some(s) => Some(s@),
        None => None,
    }
}

/// The plain values of a validation error.
pub open spec fn error_view(e: ValidationError) -> ErrorView {
    (e.file@, opt_view(e.field), e.error_type, e.message@, opt_view(e.suggestion))
}

/// The plain values of a list of validation errors.
pub open spec fn error_views(es: Seq<ValidationError>) -> Seq<ErrorView> {
    es.map_values(|e: ValidationError| error_view(e))
}

/// The relative path `name` exists in the repository.
pub open spec fn is_present(p: RepositoryProbe, name: Seq<char>) -> bool {
    string_views(p.present@).contains(name)
}

/// The error for a missing root file.
pub open spec fn missing_file_error(name: Seq<char>) -> ErrorView {
    (name, None, ValidationErrorType::MissingFile, "Required file '"@ + name + "' is missing"@,
        Some("Create '"@ + name + "' in the context repository root"@))
}

/// The error for a missing directory.
pub open spec fn missing_dir_error(name: Seq<char>) -> ErrorView {
    (name, None, ValidationErrorType::MissingDirectory, "Required directory '"@ + name + "' is missing"@,
        Some("Create '"@ + name + "/' directory in the context repository"@))
}

/// The path of a world model file, relative to the root.
pub open spec fn world_model_path(name: Seq<char>) -> Seq<char> {
    "world-model/"@ + name
}

/// The error for a missing world model file.
pub open spec fn missing_world_model_error(name: Seq<char>) -> ErrorView {
    (world_model_path(name), None, ValidationErrorType::MissingFile,
        "Required world model file '"@ + name + "' is missing"@,
        Some("Create '"@ + name + "' in the 'world-model/' directory"@))
}

/// The kinds of required entries.
pub enum EntryKind {
    RootFile,
    Directory,
    WorldModelFile,
}

/// The relative path checked for an entry of the given kind.
pub open spec fn entry_path(kind: EntryKind, name: Seq<char>) -> Seq<char> {
    match kind {
        EntryKind::WorldModelFile => world_model_path(name),
        _ => name,
    }
}

/// The error reported for a missing entry of the given kind.
pub open spec fn missing_error(kind: EntryKind, name: Seq<char>) -> ErrorView {
    match kind {
        EntryKind::RootFile => missing_file_error(name),
        EntryKind::Directory => missing_dir_error(name),
        EntryKind::WorldModelFile => missing_world_model_error(name),
    }
}

/// The errors for the entries of `names` that are missing, in order.
pub open spec fn missing_errors(p: RepositoryProbe, kind: EntryKind, names: Seq<Seq<char>>) -> Seq<ErrorView>
    decreases names.len(),
{
    if names.len() == 0 {
        seq![]
    } else {
        missing_errors(p, kind, names.drop_last()) + if is_present(p, entry_path(kind, names.last())) {
            Seq::<ErrorView>::empty()
        } else {
            seq![missing_error(kind, names.last())]
        }
    }
}

/// The errors for a JSON file named `name` from what reading it gave.
pub open spec fn json_errors(check: FileCheck, name: Seq<char>) -> Seq<ErrorView> {
    match check {
        FileCheck::Parsed => seq![],
        FileCheck::Invalid(m) => seq![(name, None, ValidationErrorType::InvalidJson,
            "JSON parsing error: "@ + m@, Some("Fix the JSON syntax error"@))],
        FileCheck::Unreadable(m) => seq![(name, None, ValidationErrorType::MissingFile,
            "Cannot read file: "@ + m@, Some("Verify the file exists and has correct permissions"@))],
    }
}

/// The error when the personas directory lists no JSON file.
pub open spec fn persona_count_errors(p: RepositoryProbe) -> Seq<ErrorView> {
    if p.persona_json_files == Some(0usize) {
        seq![("personas"@, None, ValidationErrorType::MissingFile, "No persona definition files found"@,
            Some("Add at least one .json persona file to the personas/ directory"@))]
    } else {
        seq![]
    }
}

/// The errors found in a repository: a missing root alone; otherwise the
/// missing root files and directories; when none is missing, the problems
/// of contract.json and config.json, the missing world model files, and an
/// empty personas directory.
pub open spec fn repository_errors(p: RepositoryProbe) -> Seq<ErrorView> {
    if !p.root_exists {
        seq![(p.root_display@, None, ValidationErrorType::MissingDirectory,
            "Context repository path does not exist"@,
            Some("Verify the path points to a valid context repository"@))]
    } else {
        let structure = missing_errors(p, EntryKind::RootFile, required_file_names())
            + missing_errors(p, EntryKind::Directory, required_dir_names());
        if structure.len() > 0 {
            structure
        } else {
            json_errors(p.contract_file, "contract.json"@) + json_errors(p.config_file, "config.json"@)
                + missing_errors(p, EntryKind::WorldModelFile, required_world_model_file_names())
                + persona_count_errors(p)
        }
    }
}

/// A validation result that is valid exactly when it holds no error, holds
/// no warning, and whose errors are `expected`.
pub open spec fn result_is(r: ValidationResult, expected: Seq<ErrorView>) -> bool {
    &&& error_views(r.errors@) == expected
    &&& r.valid == (expected.len() == 0)
    &&& r.warnings@.len() == 0
}

/// Appends an error to a result and marks it invalid.
fn add_error(
    result: &mut ValidationResult,
    file: String,
    error_type: ValidationErrorType,
    message: String,
    suggestion: String,
)
    ensures
        error_views(final(result).errors@) == error_views(old(result).errors@).push(
            (file@, None, error_type, message@, Some(suggestion@)),
        ),
        !final(result).valid,
        final(result).warnings == old(result).warnings,
{
    let ghost before = result.errors@;
    result.valid = false;
    result.errors.push(ValidationError { file, field: None, error_type, message, suggestion: Some(suggestion) });
    assert(error_views(result.errors@) =~= error_views(before).push((file@, None, error_type, message@, Some(suggestion@))));
}

/// Whether the relative path `name` exists in the repository.
fn present_in(p: &RepositoryProbe, name: &str) -> (r: bool)
    ensures
        r == is_present(*p, name@),
{
    any_equals(&p.present, name)
}

/// Appends the errors for the missing entries of `names`.
fn check_entries(result: &mut ValidationResult, p: &RepositoryProbe, kind: EntryKind, names: Vec<&str>, Ghost(expected): Ghost<Seq<Seq<char>>>)
    requires
        names@.map_values(|x: &str| x@) == expected,
        old(result).valid == (old(result).errors@.len() == 0),
    ensures
        error_views(final(result).errors@) == error_views(old(result).errors@) + missing_errors(*p, kind, expected),
        final(result).valid == (final(result).errors@.len() == 0),
        final(result).warnings == old(result).warnings,
{
    let ghost e0 = error_views(result.errors@);
    let mut i: usize = 0;
    while i < names.len()
        invariant
            i <= names@.len(),
            names@.map_values(|x: &str| x@) == expected,
            error_views(result.errors@) == e0 + missing_errors(*p, kind, expected.take(i as int)),
            result.valid == (result.errors@.len() == 0),
            result.warnings == old(result).warnings,
        decreases names@.len() - i,
    {
        let name = names[i];
        assert(expected.take(i + 1).drop_last() =~= expected.take(i as int));
        assert(expected[i as int] == name@);
        let path = match kind {
            EntryKind::WorldModelFile => join2("world-model/", name),
            _ => String::from_str(name),
        };
        proof {
            reveal_strlit("world-model/");
        }
        let ghost before = error_views(result.errors@);
        if !present_in(p, path.as_str()) {
            match kind {
                EntryKind::RootFile => {
                    add_error(result, String::from_str(name), ValidationErrorType::MissingFile,
                        join3("Required file '", name, "' is missing"),
                        join3("Create '", name, "' in the context repository root"));
                },
                EntryKind::Directory => {
                    add_error(result, String::from_str(name), ValidationErrorType::MissingDirectory,
                        join3("Required directory '", name, "' is missing"),
                        join3("Create '", name, "/' directory in the context repository"));
                },
                EntryKind::WorldModelFile => {
                    add_error(result, path, ValidationErrorType::MissingFile,
                        join3("Required world model file '", name, "' is missing"),
                        join3("Create '", name, "' in the 'world-model/' directory"));
                },
            }
            assert(error_views(result.errors@) =~= e0 + missing_errors(*p, kind, expected.take(i + 1)));
        } else {
            assert(error_views(result.errors@) =~= e0 + missing_errors(*p, kind, expected.take(i + 1)));
        }
        i = i + 1;
    }
    assert(expected.take(i as int) =~= expected);
}

/// Validate that a JSON file could be read and deserialized, from what
/// reading it gave; `name` is how the file is reported.
pub fn validate_json_file(check: &FileCheck, name: &str) -> (r: ValidationResult)
    ensures
        result_is(r, json_errors(*check, name@)),
{
    let mut result = ValidationResult::success();
    match check {
        FileCheck::Parsed => {},
        FileCheck::Invalid(m) => {
            add_error(&mut result, String::from_str(name), ValidationErrorType::InvalidJson,
                join2("JSON parsing error: ", m.as_str()), String::from_str("Fix the JSON syntax error"));
        },
        FileCheck::Unreadable(m) => {
            add_error(&mut result, String::from_str(name), ValidationErrorType::MissingFile,
                join2("Cannot read file: ", m.as_str()),
                String::from_str("Verify the file exists and has correct permissions"));
        },
    }
    assert(error_views(result.errors@) =~= json_errors(*check, name@));
    result
}

/// Validate a Context Repository from what its directory holds: every
/// problem found is reported, with the file it concerns and a suggestion.
pub fn validate_context_repository(p: &RepositoryProbe) -> (r: ValidationResult)
    ensures
        result_is(r, repository_errors(*p)),
{
    let mut result = ValidationResult::success();
    assert(error_views(result.errors@) =~= Seq::<ErrorView>::empty());
    if !p.root_exists {
        add_error(&mut result, p.root_display.clone(), ValidationErrorType::MissingDirectory,
            String::from_str("Context repository path does not exist"),
            String::from_str("Verify the path points to a valid context repository"));
        assert(error_views(result.errors@) =~= repository_errors(*p));
        return result;
    }
    check_entries(&mut result, p, EntryKind::RootFile, ContextStructure::required_files(), Ghost(required_file_names()));
    check_entries(&mut result, p, EntryKind::Directory, ContextStructure::required_dirs(), Ghost(required_dir_names()));
    let ghost structure = error_views(result.errors@);
    assert(structure =~= missing_errors(*p, EntryKind::RootFile, required_file_names())
        + missing_errors(*p, EntryKind::Directory, required_dir_names()));
    if !result.valid {
        return result;
    }
    result.merge(validate_json_file(&p.contract_file, "contract.json"));
    result.merge(validate_json_file(&p.config_file, "config.json"));
    let ghost after_json = error_views(result.errors@);
    assert(after_json =~= json_errors(p.contract_file, "contract.json"@) + json_errors(p.config_file, "config.json"@));
    check_entries(&mut result, p, EntryKind::WorldModelFile, ContextStructure::required_world_model_files(),
        Ghost(required_world_model_file_names()));
    let ghost before = result.errors@;
    match p.persona_json_files {
        Some(n) => {
            if n == 0 {
                add_error(&mut result, String::from_str("personas"), ValidationErrorType::MissingFile,
                    String::from_str("No persona definition files found"),
                    String::from_str("Add at least one .json persona file to the personas/ directory"));
            }
        },
        None => {},
    }
    assert(error_views(result.errors@) =~= error_views(before) + persona_count_errors(*p));
    assert(error_views(result.errors@) =~= repository_errors(*p));
    result
}


/// The first name of `names` whose entry is missing, if any.
pub open spec fn first_missing(p: RepositoryProbe, kind: EntryKind, names: Seq<Seq<char>>) -> Option<Seq<char>>
    decreases names.len(),
{
    if names.len() == 0 {
        None
    } else {
        match first_missing(p, kind, names.drop_last()) {
            Some(n) => Some(n),
            None => if is_present(p, entry_path(kind, names.last())) {
                None
            } else {
                Some(names.last())
            },
        }
    }
}

/// The first missing entry of `names`.
fn find_missing(p: &RepositoryProbe, kind: EntryKind, names: Vec<&'static str>, Ghost(expected): Ghost<Seq<Seq<char>>>) -> (r: Option<&'static str>)
    requires
        names@.map_values(|x: &str| x@) == expected,
    ensures
        r matches Some(n) ==> first_missing(*p, kind, expected) == Some(n@),
        r is None ==> first_missing(*p, kind, expected) is None,
{
    let mut i: usize = 0;
    while i < names.len()
        invariant
            i <= names@.len(),
            names@.map_values(|x: &str| x@) == expected,
            first_missing(*p, kind, expected.take(i as int)) is None,
        decreases names@.len() - i,
    {
        let name = names[i];
        assert(expected.take(i + 1).drop_last() =~= expected.take(i as int));
        assert(expected[i as int] == name@);
        let path = match kind {
            EntryKind::WorldModelFile => join2("world-model/", name),
            _ => String::from_str(name),
        };
        proof {
            reveal_strlit("world-model/");
        }
        if !present_in(p, path.as_str()) {
            proof {
                lemma_first_missing_prefix(*p, kind, expected, i as int + 1);
            }
            return Some(name);
        }
        i = i + 1;
    }
    assert(expected.take(i as int) =~= expected);
    None
}

proof fn lemma_first_missing_prefix(p: RepositoryProbe, kind: EntryKind, names: Seq<Seq<char>>, k: int)
    requires
        0 < k <= names.len(),
        first_missing(p, kind, names.take(k)) is Some,
    ensures
        first_missing(p, kind, names) == first_missing(p, kind, names.take(k)),
    decreases names.len(),
{
    if k < names.len() {
        assert(names.drop_last().take(k) =~= names.take(k));
        lemma_first_missing_prefix(p, kind, names.drop_last(), k);
    } else {
        assert(names.take(k) =~= names);
    }
}

/// When no entry of `names` is missing, none is reported missing.
proof fn lemma_none_missing(p: RepositoryProbe, kind: EntryKind, names: Seq<Seq<char>>)
    requires
        first_missing(p, kind, names) is None,
    ensures
        missing_errors(p, kind, names).len() == 0,
    decreases names.len(),
{
    if names.len() > 0 {
        lemma_none_missing(p, kind, names.drop_last());
    }
}

/// The check accepts every repository the loader accepts: a repository
/// whose layout passes the structure check, whose `contract.json` and
/// `config.json` deserialize, and whose personas directory lists a JSON file
/// draws no error from the validation (and no warning).
pub proof fn loadable_repository_validates(p: RepositoryProbe)
    requires
        p.root_exists,
        first_missing(p, EntryKind::RootFile, required_file_names()) is None,
        first_missing(p, EntryKind::Directory, required_dir_names()) is None,
        first_missing(p, EntryKind::WorldModelFile, required_world_model_file_names()) is None,
        p.contract_file is Parsed,
        p.config_file is Parsed,
        p.persona_json_files != Some(0usize),
    ensures
        repository_errors(p).len() == 0,
{
    lemma_none_missing(p, EntryKind::RootFile, required_file_names());
    lemma_none_missing(p, EntryKind::Directory, required_dir_names());
    lemma_none_missing(p, EntryKind::WorldModelFile, required_world_model_file_names());
}

/// Check the directory structure of a Context Repository: the root, then
/// the required files, directories and world model files, in that order;
/// the first one missing is reported.
pub fn validate_directory_structure(p: &RepositoryProbe) -> (r: Result<(), ContractError>)
    ensures
        !p.root_exists ==> (r matches Err(ContractError::Io(m))
            && m@ == "Context repository path does not exist: "@ + p.root_display@),
        p.root_exists ==> (first_missing(*p, EntryKind::RootFile, required_file_names()) matches Some(f)
            ==> (r matches Err(ContractError::MissingFile(m)) && m@ == f)),
        (p.root_exists && first_missing(*p, EntryKind::RootFile, required_file_names()) is None)
            ==> (first_missing(*p, EntryKind::Directory, required_dir_names()) matches Some(d)
            ==> (r matches Err(ContractError::MissingDirectory(m)) && m@ == d)),
        (p.root_exists && first_missing(*p, EntryKind::RootFile, required_file_names()) is None
            && first_missing(*p, EntryKind::Directory, required_dir_names()) is None)
            ==> (first_missing(*p, EntryKind::WorldModelFile, required_world_model_file_names()) matches Some(f)
            ==> (r matches Err(ContractError::MissingFile(m)) && m@ == world_model_path(f))),
        r is Ok <==> (p.root_exists && first_missing(*p, EntryKind::RootFile, required_file_names()) is None
            && first_missing(*p, EntryKind::Directory, required_dir_names()) is None
            && first_missing(*p, EntryKind::WorldModelFile, required_world_model_file_names()) is None),
{
    if !p.root_exists {
        return Err(ContractError::Io(join2("Context repository path does not exist: ", p.root_display.as_str())));
    }
    match find_missing(p, EntryKind::RootFile, ContextStructure::required_files(), Ghost(required_file_names())) {
        Some(f) => {
            return Err(ContractError::MissingFile(String::from_str(f)));
        },
        None => {},
    }
    match find_missing(p, EntryKind::Directory, ContextStructure::required_dirs(), Ghost(required_dir_names())) {
        Some(d) => {
            return Err(ContractError::MissingDirectory(String::from_str(d)));
        },
        None => {},
    }
    match find_missing(p, EntryKind::WorldModelFile, ContextStructure::required_world_model_files(),
        Ghost(required_world_model_file_names())) {
        Some(f) => {
            proof {
                reveal_strlit("world-model/");
            }
            return Err(ContractError::MissingFile(join2("world-model/", f)));
        },
        None => {},
    }
    Ok(())
}

/// A definition read from `path` passes its checks.
pub open spec fn persona_entry_good(e: (String, Result<PersonaDefinition, ContractError>)) -> bool {
    e.1 matches Ok(p) && persona_errors(p).len() == 0
}

/// Each persona read, in order, from its file: a read or parse failure is
/// returned as it came, the first persona that fails its checks is reported
/// with its file and messages, and finding none is an error; otherwise the
/// personas are returned in order.
pub fn collect_personas(entries: Vec<(String, Result<PersonaDefinition, ContractError>)>) -> (r: Result<Vec<PersonaDefinition>, ContractError>)
    ensures
        r is Ok <==> (entries@.len() > 0 && forall|i: int| 0 <= i < entries@.len() ==> persona_entry_good(#[trigger] entries@[i])),
        r matches Ok(ps) ==> ps@.len() == entries@.len() && forall|i: int| 0 <= i < entries@.len() ==> entries@[i].1 == Ok::<PersonaDefinition, ContractError>(#[trigger] ps@[i]),
        r matches Err(e) ==> {
            ||| (entries@.len() == 0 && (e matches ContractError::MissingFile(m)
                && m@ == "No persona JSON files found in personas directory"@))
            ||| exists|k: int| #![trigger entries@[k]] 0 <= k < entries@.len() && !persona_entry_good(entries@[k])
                && (forall|j: int| 0 <= j < k ==> persona_entry_good(#[trigger] entries@[j]))
                && (entries@[k].1 matches Err(x) ==> e == x)
                && (entries@[k].1 matches Ok(p) ==> (e matches ContractError::SchemaValidation { file, errors }
                    && file@ == entries@[k].0@ && string_views(errors@) == persona_errors(p)))
        },
{
    let ghost all = entries@;
    let total = entries.len();
    let mut rest = entries;
    let mut personas: Vec<PersonaDefinition> = Vec::new();
    let mut k: usize = 0;
    while rest.len() > 0
        invariant
            all == entries@,
            all.len() == total,
            k + rest@.len() == all.len(),
            rest@ == all.skip(k as int),
            personas@.len() == k,
            forall|j: int| 0 <= j < k ==> persona_entry_good(#[trigger] all[j]),
            forall|j: int| 0 <= j < k ==> all[j].1 == Ok::<PersonaDefinition, ContractError>(#[trigger] personas@[j]),
        decreases rest@.len(),
    {
        let (path, read) = rest.remove(0);
        assert(all[k as int] == (path, read));
        assert(rest@ =~= all.skip(k + 1));
        match read {
            Err(e) => {
                proof {
                    assert(!persona_entry_good(all[k as int]));
                    assert(all[k as int].1 == Err::<PersonaDefinition, ContractError>(e));
                }
                return Err(e);
            },
            Ok(p) => {
                let errors = p.validate();
                if errors.len() > 0 {
                    return Err(ContractError::SchemaValidation { file: path, errors });
                }
                personas.push(p);
            },
        }
        k = k + 1;
    }
    if personas.len() == 0 {
        return Err(ContractError::MissingFile(String::from_str("No persona JSON files found in personas directory")));
    }
    Ok(personas)
}

/// A scenario read from its file passes its checks.
pub open spec fn scenario_entry_good(e: (String, Result<ScenarioDefinition, ContractError>)) -> bool {
    e.1 matches Ok(s) && scenario_errors(s).len() == 0
}

/// Each scenario read, in order, from its file: a read or parse failure is
/// returned as it came, the first scenario that fails its checks is
/// reported with its file and messages, and finding none is an error;
/// otherwise the scenarios are returned in order.
pub fn collect_scenarios(entries: Vec<(String, Result<ScenarioDefinition, ContractError>)>) -> (r: Result<Vec<ScenarioDefinition>, ContractError>)
    ensures
        r is Ok <==> (entries@.len() > 0 && forall|i: int| 0 <= i < entries@.len() ==> scenario_entry_good(#[trigger] entries@[i])),
        r matches Ok(ss) ==> ss@.len() == entries@.len() && forall|i: int| 0 <= i < entries@.len() ==> entries@[i].1 == Ok::<ScenarioDefinition, ContractError>(#[trigger] ss@[i]),
        r matches Err(e) ==> {
            ||| (entries@.len() == 0 && (e matches ContractError::MissingFile(m)
                && m@ == "No scenario JSON files found in scenarios directory"@))
            ||| exists|k: int| #![trigger entries@[k]] 0 <= k < entries@.len() && !scenario_entry_good(entries@[k])
                && (forall|j: int| 0 <= j < k ==> scenario_entry_good(#[trigger] entries@[j]))
                && (entries@[k].1 matches Err(x) ==> e == x)
                && (entries@[k].1 matches Ok(s) ==> (e matches ContractError::SchemaValidation { file, errors }
                    && file@ == entries@[k].0@ && string_views(errors@) == scenario_errors(s)))
        },
{
    let ghost all = entries@;
    let total = entries.len();
    let mut rest = entries;
    let mut scenarios: Vec<ScenarioDefinition> = Vec::new();
    let mut k: usize = 0;
    while rest.len() > 0
        invariant
            all == entries@,
            all.len() == total,
            k + rest@.len() == all.len(),
            rest@ == all.skip(k as int),
            scenarios@.len() == k,
            forall|j: int| 0 <= j < k ==> scenario_entry_good(#[trigger] all[j]),
            forall|j: int| 0 <= j < k ==> all[j].1 == Ok::<ScenarioDefinition, ContractError>(#[trigger] scenarios@[j]),
        decreases rest@.len(),
    {
        let (path, read) = rest.remove(0);
        assert(all[k as int] == (path, read));
        assert(rest@ =~= all.skip(k + 1));
        match read {
            Err(e) => {
                proof {
                    assert(!scenario_entry_good(all[k as int]));
                    assert(all[k as int].1 == Err::<ScenarioDefinition, ContractError>(e));
                }
                return Err(e);
            },
            Ok(s) => {
                let errors = s.validate();
                if errors.len() > 0 {
                    return Err(ContractError::SchemaValidation { file: path, errors });
                }
                scenarios.push(s);
            },
        }
        k = k + 1;
    }
    if scenarios.len() == 0 {
        return Err(ContractError::MissingFile(String::from_str("No scenario JSON files found in scenarios directory")));
    }
    Ok(scenarios)
}

/// The fidelity tests read, in order: the first read or parse failure is
/// returned as it came; otherwise every test, in order.
pub fn collect_fidelity_tests(entries: Vec<Result<PersonaFidelityTest, ContractError>>) -> (r: Result<Vec<PersonaFidelityTest>, ContractError>)
    ensures
        r is Ok <==> forall|i: int| 0 <= i < entries@.len() ==> (#[trigger] entries@[i]) is Ok,
        r matches Ok(ts) ==> ts@.len() == entries@.len() && forall|i: int| 0 <= i < entries@.len() ==> entries@[i] == Ok::<PersonaFidelityTest, ContractError>(#[trigger] ts@[i]),
        r matches Err(e) ==> exists|k: int| #![trigger entries@[k]] 0 <= k < entries@.len() && entries@[k] == Err::<PersonaFidelityTest, ContractError>(e)
            && forall|j: int| 0 <= j < k ==> (#[trigger] entries@[j]) is Ok,
{
    let ghost all = entries@;
    let total = entries.len();
    let mut rest = entries;
    let mut tests: Vec<PersonaFidelityTest> = Vec::new();
    let mut k: usize = 0;
    while rest.len() > 0
        invariant
            all == entries@,
            all.len() == total,
            k + rest@.len() == all.len(),
            rest@ == all.skip(k as int),
            tests@.len() == k,
            forall|j: int| 0 <= j < k ==> (#[trigger] all[j]) is Ok,
            forall|j: int| 0 <= j < k ==> all[j] == Ok::<PersonaFidelityTest, ContractError>(#[trigger] tests@[j]),
        decreases rest@.len(),
    {
        let read = rest.remove(0);
        assert(all[k as int] == read);
        assert(rest@ =~= all.skip(k + 1));
        match read {
            Err(e) => {
                proof {
                    assert(all[k as int] == Err::<PersonaFidelityTest, ContractError>(e));
                }
                return Err(e);
            },
            Ok(t) => {
                tests.push(t);
            },
        }
        k = k + 1;
    }
    Ok(tests)
}

/// The world model read from its four files, kept when it passes its checks
/// and reported with all its messages otherwise.
pub fn check_world_model(world_model: WorldModel) -> (r: Result<WorldModel, ContractError>)
    ensures
        world_model_errors(world_model).len() == 0 ==> r == Ok::<WorldModel, ContractError>(world_model),
        world_model_errors(world_model).len() > 0 ==> (r matches Err(ContractError::SchemaValidation { file, errors })
            && file@ == "world-model/"@ && string_views(errors@) == world_model_errors(world_model)),
{
    let errors = world_model.validate();
    if errors.len() > 0 {
        return Err(ContractError::SchemaValidation { file: String::from_str("world-model/"), errors });
    }
    Ok(world_model)
}
} // verus!
